//! Receiving from a D80 chip: the interrupt-status decoding that says where a pending
//! transfer is and how long it is, the walk through an aggregate of frames, and the wait
//! for one configuration response.
use vstd::prelude::*;

use crate::bytes::{le16_at, read_le16};
use crate::data::{
    SDIO_CONFIG_COMMAND_RESPONSE_TYPE, SDIO_CONFIG_TYPE_MASK, SDIO_RECEIVE_HEADER_LENGTH,
};
use crate::device::{Aic8800Product, SDIO_BLOCK_SIZE, is_d80_family};
use crate::protocol::{
    ConfigResponse, ConfigResponseView, ProtocolError, spec_parse_config_response,
};
use crate::sdio::{AicBusLog, BusOperation, log_extends, lemma_skip_push};

verus! {

/// The bus access used to receive from the chip.
///
/// Every method adds the one operation it performed, with its answer, to the bus log.
/// `read_fifo` leaves the length of `output` as it was and, on success, records the bytes
/// it left there.
pub trait AicResponseIo: AicBusLog {
    type Error;

    fn read_register(&mut self, function: u8, address: u32) -> (result: Result<u8, Self::Error>)
        ensures
            final(self).bus_log() == old(self).bus_log().push(
                BusOperation::ReadRegister {
                    function,
                    address,
                    value: match result {
                        Ok(v) => Some(v),
                        Err(_) => None,
                    },
                },
            ),
    ;

    fn write_register(&mut self, function: u8, address: u32, value: u8) -> (result: Result<
        (),
        Self::Error,
    >)
        ensures
            final(self).bus_log() == old(self).bus_log().push(
                BusOperation::WriteRegister { function, address, value, succeeded: result is Ok },
            ),
    ;

    fn read_fifo(&mut self, function: u8, address: u32, output: &mut [u8]) -> (result: Result<
        (),
        Self::Error,
    >)
        ensures
            final(output)@.len() == old(output)@.len(),
            final(self).bus_log() == old(self).bus_log().push(
                BusOperation::ReadFifo {
                    function,
                    address,
                    length: old(output)@.len(),
                    data: if result is Ok {
                        Some(final(output)@)
                    } else {
                        None
                    },
                },
            ),
    ;

    fn delay_ms(&mut self, milliseconds: u32)
        ensures
            final(self).bus_log() == old(self).bus_log().push(
                BusOperation::DelayMs { milliseconds },
            ),
    ;
}

#[derive(Clone, Copy, Debug, Eq, PartialEq)]
pub enum AicResponseError<E> {
    Io(E),
    UnsupportedProduct(Aic8800Product),
    OutputTooShort { required: usize, available: usize },
    Protocol(ProtocolError),
    UnexpectedResponseId { expected: u16, actual: u16 },
    Timeout { milliseconds: u32 },
}

/// Receive storage for the largest D80 transfer the driver takes: seven SDIO blocks.
pub const D80_MAXIMUM_RECEIVE_TRANSFER_LENGTH: usize = 3584;

// D80 register addresses on function one.
pub const D80_STATUS_REGISTER: u32 = 0x04;
pub const D80_PENDING_REGISTER: u32 = 0x01;
pub const D80_BYTE_MODE_LENGTH_REGISTER: u32 = 0x05;
pub const D80_READ_FIFO: u32 = 0x0f;

/// Whether a D80 status value reports its length in the byte-mode length register.
pub open spec fn d80_status_uses_byte_count(status: u8) -> bool {
    status == 120 || status == 127
}

/// The SDIO function a D80 status value says the transfer waits on.
pub open spec fn d80_receive_function(status: u8) -> u8 {
    if (status | 8u8) > 120 {
        2
    } else {
        1
    }
}

/// The length of the pending transfer for a status value, given the word count that
/// the byte-mode length register answered (used only for the byte-mode statuses).
pub open spec fn d80_receive_length(status: u8, words: u8) -> nat {
    if d80_status_uses_byte_count(status) {
        words as nat * 4
    } else if (status | 8u8) > 120 {
        (status & 7u8) as nat * 512
    } else {
        (status & 0x7fu8) as nat * 512
    }
}

/// How a status without the other-interrupt bit places the pending transfer: statuses 120
/// and 127 give four bytes per word of the byte count, on functions one and two; the other
/// statuses whose low bits lifted by eight exceed 120 give their low three bits in blocks on
/// function two; the rest give themselves in blocks on function one.
pub proof fn lemma_d80_receive_rule(status: u8, words: u8)
    requires
        status & 0x80u8 == 0,
    ensures
        status == 120 ==> d80_receive_function(status) == 1 && d80_receive_length(status, words)
            == 4 * words,
        status == 127 ==> d80_receive_function(status) == 2 && d80_receive_length(status, words)
            == 4 * words,
        status != 120 && status != 127 && (status | 8u8) > 120 ==> d80_receive_function(status) == 2
            && d80_receive_length(status, words) == (status & 7u8) * 512,
        status != 120 && status != 127 && (status | 8u8) <= 120 ==> d80_receive_function(status)
            == 1 && d80_receive_length(status, words) == status * 512,
{
    assert(status & 0x80u8 == 0 ==> status & 0x7fu8 == status) by (bit_vector);
    assert((120u8 | 8u8) == 120u8 && (127u8 | 8u8) == 127u8) by (bit_vector);
}

/// The register traffic that clears the device-to-host pending bit when the status has
/// the other-interrupt bit set: the read of the pending register, then the write back of
/// its answer without bit zero.
pub open spec fn d80_pending_service(status: u8, pending: u8) -> Seq<BusOperation> {
    if status & 0x80u8 != 0 {
        seq![
            BusOperation::ReadRegister {
                function: 1,
                address: D80_PENDING_REGISTER,
                value: Some(pending),
            },
            BusOperation::WriteRegister {
                function: 1,
                address: D80_PENDING_REGISTER,
                value: pending & 0xfeu8,
                succeeded: true,
            },
        ]
    } else {
        seq![]
    }
}

/// The register traffic that services a non-zero status: clearing the device-to-host
/// pending bit when the other-interrupt bit is set, and reading the byte count for the
/// byte-mode statuses.
pub open spec fn d80_status_service(status: u8, pending: u8, words: u8) -> Seq<BusOperation> {
    d80_pending_service(status, pending) + (if d80_status_uses_byte_count(status) {
        seq![
            BusOperation::ReadRegister {
                function: 1,
                address: D80_BYTE_MODE_LENGTH_REGISTER,
                value: Some(words),
            },
        ]
    } else {
        seq![]
    })
}

/// Whether `operations` are a receive that read the non-zero status `status` and then
/// failed on its first bus operation to fail, which is the last of `operations`: the read
/// of the pending register, its write back, the read of the byte count, or the read of the
/// transfer (`pending` and `words` being the answers of the reads before it). Only a failed
/// transfer read may have changed `output`, and only in the transfer's bytes.
pub open spec fn d80_io_failure_at(
    operations: Seq<BusOperation>,
    original: Seq<u8>,
    output: Seq<u8>,
    status: u8,
    pending: u8,
    words: u8,
) -> bool {
    let read = seq![d80_status_read(Some(status))];
    let length = d80_receive_length(status, words);
    &&& status != 0
    &&& output.len() == original.len()
    &&& {
        ||| status & 0x80u8 != 0 && output == original && operations == read + seq![
            BusOperation::ReadRegister { function: 1, address: D80_PENDING_REGISTER, value: None },
        ]
        ||| status & 0x80u8 != 0 && output == original && operations == read + seq![
            BusOperation::ReadRegister {
                function: 1,
                address: D80_PENDING_REGISTER,
                value: Some(pending),
            },
            BusOperation::WriteRegister {
                function: 1,
                address: D80_PENDING_REGISTER,
                value: pending & 0xfeu8,
                succeeded: false,
            },
        ]
        ||| d80_status_uses_byte_count(status) && output == original && operations == read
            + d80_pending_service(status, pending) + seq![
            BusOperation::ReadRegister {
                function: 1,
                address: D80_BYTE_MODE_LENGTH_REGISTER,
                value: None,
            },
        ]
        ||| 0 < length <= original.len() && output.skip(length as int) == original.skip(
            length as int,
        ) && operations == read + d80_status_service(status, pending, words) + seq![
            BusOperation::ReadFifo {
                function: d80_receive_function(status),
                address: D80_READ_FIFO,
                length,
                data: None,
            },
        ]
    }
}

/// The read of the interrupt status register, with its answer.
pub open spec fn d80_status_read(value: Option<u8>) -> BusOperation {
    BusOperation::ReadRegister { function: 1, address: D80_STATUS_REGISTER, value }
}

/// What a call of `receive_pending_frame` that performed `operations` and left `output`
/// (which held `original`) may have returned.
pub open spec fn receive_outcome<E>(
    product: Aic8800Product,
    operations: Seq<BusOperation>,
    original: Seq<u8>,
    output: Seq<u8>,
    result: Result<Option<usize>, AicResponseError<E>>,
) -> bool {
    match result {
        Ok(None) => {
            &&& is_d80_family(product)
            &&& output == original
            &&& (operations == seq![d80_status_read(Some(0))] || exists|
                status: u8,
                pending: u8,
                words: u8,
            |
                {
                    &&& status != 0
                    &&& d80_receive_length(status, words) == 0
                    &&& operations == seq![d80_status_read(Some(status))] + d80_status_service(
                        status,
                        pending,
                        words,
                    )
                }) 
        },
        Ok(Some(length)) => {
            &&& is_d80_family(product)
            &&& exists|status: u8, pending: u8, words: u8, data: Seq<u8>|
                {
                    &&& status != 0
                    &&& length == d80_receive_length(status, words)
                    &&& 0 < length <= original.len()
                    &&& data.len() == length
                    &&& output == data + original.skip(length as int)
                    &&& operations == seq![d80_status_read(Some(status))] + d80_status_service(
                        status,
                        pending,
                        words,
                    ) + seq![
                        BusOperation::ReadFifo {
                            function: d80_receive_function(status),
                            address: D80_READ_FIFO,
                            length: length as nat,
                            data: Some(data),
                        },
                    ]
                }
        },
        Err(AicResponseError::UnsupportedProduct(p)) => {
            &&& p == product
            &&& !is_d80_family(product)
            &&& operations.len() == 0
            &&& output == original
        },
        Err(AicResponseError::OutputTooShort { required, available }) => {
            &&& is_d80_family(product)
            &&& output == original
            &&& available == original.len()
            &&& required > available
            &&& exists|status: u8, pending: u8, words: u8|
                {
                    &&& required == d80_receive_length(status, words)
                    &&& operations == seq![d80_status_read(Some(status))] + d80_status_service(
                        status,
                        pending,
                        words,
                    )
                }
        },
        Err(AicResponseError::Io(_)) => {
            &&& is_d80_family(product)
            &&& {
                ||| operations == seq![d80_status_read(None)] && output == original
                ||| exists|status: u8, pending: u8, words: u8|
                    #[trigger] d80_io_failure_at(operations, original, output, status, pending, words)
            }
        },
        Err(_) => false,
    }
}

/// Services the D80 interrupt status and, when a transfer is pending, reads it into the
/// front of `output` and returns its length. Only D80 products are supported.
pub fn receive_pending_frame<I: AicResponseIo>(
    io: &mut I,
    product: Aic8800Product,
    output: &mut [u8],
) -> (result: Result<Option<usize>, AicResponseError<I::Error>>)
    ensures
        log_extends(old(io).bus_log(), final(io).bus_log()),
        final(output)@.len() == old(output)@.len(),
        receive_outcome(
            product,
            final(io).bus_log().skip(old(io).bus_log().len() as int),
            old(output)@,
            final(output)@,
            result,
        ),
{
    let ghost start = io.bus_log();
    match product {
        Aic8800Product::Aic8800D80 | Aic8800Product::Aic8800D80X2 => {},
        _ => {
            assert(io.bus_log().skip(start.len() as int) =~= seq![]);
            return Err(AicResponseError::UnsupportedProduct(product));
        },
    }
    let status = match AicResponseIo::read_register(io, 1, D80_STATUS_REGISTER) {
        Ok(status) => status,
        Err(error) => {
            assert(io.bus_log().skip(start.len() as int) =~= seq![d80_status_read(None)]);
            return Err(AicResponseError::Io(error));
        },
    };
    let ghost after_status = io.bus_log();
    proof {
        lemma_skip_push(start, start.len() as int, io.bus_log().last());
        assert(start.skip(start.len() as int) =~= seq![]);
    }
    if status == 0 {
        assert(io.bus_log().skip(start.len() as int) =~= seq![d80_status_read(Some(0))]);
        return Ok(None);
    }
    let ghost mut pending: u8 = 0;
    if status & 0x80 != 0 {
        let value = match AicResponseIo::read_register(io, 1, D80_PENDING_REGISTER) {
            Ok(value) => value,
            Err(error) => {
                assert(io.bus_log().skip(start.len() as int) =~= seq![d80_status_read(Some(status))]
                    + seq![
                    BusOperation::ReadRegister {
                        function: 1,
                        address: D80_PENDING_REGISTER,
                        value: None,
                    },
                ]);
                assert(d80_io_failure_at(
                    io.bus_log().skip(start.len() as int),
                    output@,
                    output@,
                    status,
                    0,
                    0,
                ));
                return Err(AicResponseError::Io(error));
            },
        };
        proof {
            pending = value;
        }
        match AicResponseIo::write_register(io, 1, D80_PENDING_REGISTER, value & 0xfe) {
            Ok(()) => {},
            Err(error) => {
                assert(io.bus_log().skip(start.len() as int) =~= seq![d80_status_read(Some(status))]
                    + seq![
                    BusOperation::ReadRegister {
                        function: 1,
                        address: D80_PENDING_REGISTER,
                        value: Some(value),
                    },
                    BusOperation::WriteRegister {
                        function: 1,
                        address: D80_PENDING_REGISTER,
                        value: value & 0xfeu8,
                        succeeded: false,
                    },
                ]);
                assert(d80_io_failure_at(
                    io.bus_log().skip(start.len() as int),
                    output@,
                    output@,
                    status,
                    value,
                    0,
                ));
                return Err(AicResponseError::Io(error));
            },
        }
    }
    assert(io.bus_log().skip(start.len() as int) =~= seq![d80_status_read(Some(status))]
        + d80_pending_service(status, pending));
    let ghost after_pending = io.bus_log();
    let ghost mut words: u8 = 0;
    let function: u8 = if (status | 8) > 120 {
        2
    } else {
        1
    };
    let length: usize = if status == 120 || status == 127 {
        let value = match AicResponseIo::read_register(io, 1, D80_BYTE_MODE_LENGTH_REGISTER) {
            Ok(value) => value,
            Err(error) => {
                assert(io.bus_log().skip(start.len() as int) =~= seq![d80_status_read(Some(status))]
                    + d80_pending_service(status, pending) + seq![
                    BusOperation::ReadRegister {
                        function: 1,
                        address: D80_BYTE_MODE_LENGTH_REGISTER,
                        value: None,
                    },
                ]);
                assert(d80_io_failure_at(
                    io.bus_log().skip(start.len() as int),
                    output@,
                    output@,
                    status,
                    pending,
                    0,
                ));
                return Err(AicResponseError::Io(error));
            },
        };
        proof {
            words = value;
        }
        value as usize * 4
    } else if (status | 8) > 120 {
        (status & 0x07) as usize * SDIO_BLOCK_SIZE
    } else {
        (status & 0x7f) as usize * SDIO_BLOCK_SIZE
    };
    let ghost serviced = seq![d80_status_read(Some(status))] + d80_status_service(
        status,
        pending,
        words,
    );
    assert(io.bus_log().skip(start.len() as int) =~= serviced);
    assert(length == d80_receive_length(status, words));
    if length == 0 {
        return Ok(None);
    }
    if output.len() < length {
        return Err(AicResponseError::OutputTooShort { required: length, available: output.len() });
    }
    let ghost original = output@;
    let ghost before = io.bus_log();
    let (head, tail) = output.split_at_mut(length);
    let read = io.read_fifo(function, D80_READ_FIFO, head);
    proof {
        lemma_skip_push(before, start.len() as int, io.bus_log().last());
    }
    match read {
        Ok(()) => {
            proof {
                let data = head@;
                assert(tail@ =~= original.skip(length as int));
                assert(output@ =~= data + original.skip(length as int));
                assert(io.bus_log().skip(start.len() as int) =~= serviced + seq![
                    BusOperation::ReadFifo {
                        function: d80_receive_function(status),
                        address: D80_READ_FIFO,
                        length: length as nat,
                        data: Some(data),
                    },
                ]);
            }
            Ok(Some(length))
        },
        Err(error) => {
            proof {
                assert(tail@ =~= original.skip(length as int));
                assert(output@.skip(length as int) =~= original.skip(length as int));
                assert(io.bus_log().skip(start.len() as int) =~= serviced + seq![
                    BusOperation::ReadFifo {
                        function: d80_receive_function(status),
                        address: D80_READ_FIFO,
                        length: length as nat,
                        data: None,
                    },
                ]);
                assert(d80_io_failure_at(
                    io.bus_log().skip(start.len() as int),
                    original,
                    output@,
                    status,
                    pending,
                    words,
                ));
            }
            Err(AicResponseError::Io(error))
        },
    }
}

// ---------------------------------------------------------------------------
// Aggregates of received frames.
// ---------------------------------------------------------------------------

/// `length` rounded up to a multiple of four.
pub open spec fn align4(length: nat) -> nat {
    ((length + 3) / 4) * 4
}

/// The bounds of the frame at `offset` of an aggregate of `aggregate_length` bytes:
/// `(start, end, next offset, message type)`, or none at the end or at a zero length,
/// or why the aggregate is malformed there. Configuration frames carry a four-byte
/// header, data frames the longer receive header; frames are four-byte aligned.
pub open spec fn spec_aggregate_frame(input: Seq<u8>, aggregate_length: nat, offset: nat) -> Result<
    Option<(usize, usize, usize, u8)>,
    ProtocolError,
> {
    if offset >= aggregate_length {
        Ok(None)
    } else if aggregate_length - offset < 4 {
        Err(
            ProtocolError::TruncatedFrame {
                required: if offset + 4 <= usize::MAX {
                    (offset + 4) as usize
                } else {
                    usize::MAX
                },
                available: aggregate_length as usize,
            },
        )
    } else if le16_at(input, offset as int) == 0 {
        Ok(None)
    } else {
        let message_type = input[offset + 2int] & 0x7fu8;
        let packet_length = le16_at(input, offset as int) as nat;
        let unaligned: nat = if message_type & SDIO_CONFIG_TYPE_MASK == SDIO_CONFIG_TYPE_MASK {
            4 + packet_length
        } else {
            (SDIO_RECEIVE_HEADER_LENGTH + packet_length) as nat
        };
        if offset + unaligned > usize::MAX {
            Err(
                ProtocolError::TruncatedFrame {
                    required: usize::MAX,
                    available: aggregate_length as usize,
                },
            )
        } else if offset + unaligned > aggregate_length {
            Err(
                ProtocolError::TruncatedFrame {
                    required: (offset + unaligned) as usize,
                    available: aggregate_length as usize,
                },
            )
        } else if offset + align4(unaligned) > usize::MAX {
            Err(
                ProtocolError::TruncatedFrame {
                    required: usize::MAX,
                    available: aggregate_length as usize,
                },
            )
        } else {
            Ok(
                Some(
                    (
                        offset as usize,
                        (offset + unaligned) as usize,
                        (offset + align4(unaligned)) as usize,
                        message_type,
                    ),
                ),
            )
        }
    }
}

/// How far an offset is from the end of the aggregate.
pub open spec fn aggregate_remaining(aggregate_length: nat, offset: nat) -> nat {
    if offset < aggregate_length {
        (aggregate_length - offset) as nat
    } else {
        0
    }
}

/// The first configuration response with identifier `expected` at or after `offset`
/// in an aggregate, skipping frames of other types and responses with other
/// identifiers; none when the aggregate ends first; or the first malformation met.
pub open spec fn spec_find_config_response(
    input: Seq<u8>,
    aggregate_length: nat,
    offset: nat,
    expected: u16,
) -> Result<Option<ConfigResponseView>, ProtocolError>
    decreases aggregate_remaining(aggregate_length, offset),
{
    match spec_aggregate_frame(input, aggregate_length, offset) {
        Err(error) => Err(error),
        Ok(None) => Ok(None),
        Ok(Some((start, end, next, message_type))) => {
            if message_type != SDIO_CONFIG_COMMAND_RESPONSE_TYPE {
                spec_find_config_response(input, aggregate_length, next as nat, expected)
            } else {
                match spec_parse_config_response(input.subrange(start as int, end as int)) {
                    Err(error) => Err(error),
                    Ok(response) => if response.id == expected {
                        Ok(Some(response))
                    } else {
                        spec_find_config_response(input, aggregate_length, next as nat, expected)
                    },
                }
            }
        },
    }
}

pub(crate) fn next_aggregate_frame_bounds(input: &[u8], aggregate_length: usize, offset: usize) -> (result:
    Result<Option<(usize, usize, usize, u8)>, ProtocolError>)
    requires
        aggregate_length <= input@.len(),
    ensures
        result == spec_aggregate_frame(input@, aggregate_length as nat, offset as nat),
{
    if offset >= aggregate_length {
        return Ok(None);
    }
    if aggregate_length - offset < 4 {
        let required = if offset <= usize::MAX - 4 {
            offset + 4
        } else {
            usize::MAX
        };
        return Err(ProtocolError::TruncatedFrame { required, available: aggregate_length });
    }
    let packet_length = read_le16(input, offset) as usize;
    if packet_length == 0 {
        return Ok(None);
    }
    let message_type = input[offset + 2] & 0x7f;
    let unaligned_frame_length = if message_type & SDIO_CONFIG_TYPE_MASK == SDIO_CONFIG_TYPE_MASK {
        4 + packet_length
    } else {
        SDIO_RECEIVE_HEADER_LENGTH + packet_length
    };
    if offset > usize::MAX - unaligned_frame_length {
        return Err(ProtocolError::TruncatedFrame { required: usize::MAX, available: aggregate_length });
    }
    let frame_end = offset + unaligned_frame_length;
    if frame_end > aggregate_length {
        return Err(ProtocolError::TruncatedFrame { required: frame_end, available: aggregate_length });
    }
    let aligned = ((unaligned_frame_length + 3) / 4) * 4;
    if offset > usize::MAX - aligned {
        return Err(ProtocolError::TruncatedFrame { required: usize::MAX, available: aggregate_length });
    }
    Ok(Some((offset, frame_end, offset + aligned, message_type)))
}

/// Searches an aggregate for the configuration response `expected` and returns the
/// bounds of its frame.
fn find_config_response(input: &[u8], aggregate_length: usize, expected: u16) -> (result: Result<
    Option<(usize, usize)>,
    ProtocolError,
>)
    requires
        aggregate_length <= input@.len(),
    ensures
        match result {
            Ok(Some((start, end))) => {
                &&& start <= end <= aggregate_length
                &&& spec_parse_config_response(input@.subrange(start as int, end as int)) matches Ok(
                    response,
                ) && response.id == expected && spec_find_config_response(
                    input@,
                    aggregate_length as nat,
                    0,
                    expected,
                ) == Ok::<Option<ConfigResponseView>, ProtocolError>(Some(response))
            },
            Ok(None) => spec_find_config_response(input@, aggregate_length as nat, 0, expected)
                == Ok::<Option<ConfigResponseView>, ProtocolError>(None),
            Err(error) => spec_find_config_response(input@, aggregate_length as nat, 0, expected)
                == Err::<Option<ConfigResponseView>, ProtocolError>(error),
        },
{
    let mut offset: usize = 0;
    loop
        invariant
            aggregate_length <= input@.len(),
            spec_find_config_response(input@, aggregate_length as nat, 0, expected)
                == spec_find_config_response(input@, aggregate_length as nat, offset as nat, expected),
        decreases aggregate_remaining(aggregate_length as nat, offset as nat),
    {
        let bounds = next_aggregate_frame_bounds(input, aggregate_length, offset);
        let (start, end, next_offset, message_type) = match bounds {
            Err(error) => return Err(error),
            Ok(None) => return Ok(None),
            Ok(Some(found)) => found,
        };
        if message_type != SDIO_CONFIG_COMMAND_RESPONSE_TYPE {
            offset = next_offset;
            continue;
        }
        let id = match ConfigResponse::parse(&input[start..end]) {
            Err(error) => return Err(error),
            Ok(response) => response.id,
        };
        if id == expected {
            return Ok(Some((start, end)));
        }
        offset = next_offset;
    }
}

/// A response, or the error that ended a wait for one, as plain values.
pub open spec fn config_result_view<'a, E>(result: Result<ConfigResponse<'a>, AicResponseError<E>>) -> Result<
    ConfigResponseView,
    AicResponseError<E>,
> {
    match result {
        Ok(response) => Ok(response@),
        Err(error) => Err(error),
    }
}

/// Whether `operations` are what a wait for the configuration response `expected`, with
/// `elapsed` of `timeout` milliseconds already spent, performed from receive storage
/// `before` to `after`, ending with `result`: each round services the interrupt status as
/// `receive_pending_frame` does; a transfer read is searched for the response (the
/// response or a malformation ends the wait); a round with nothing pending is followed by a
/// 1 ms wait; the wait times out once `timeout` rounds have found nothing.
pub open spec fn config_wait<E>(
    product: Aic8800Product,
    expected: u16,
    timeout: u32,
    elapsed: nat,
    operations: Seq<BusOperation>,
    before: Seq<u8>,
    after: Seq<u8>,
    result: Result<ConfigResponseView, AicResponseError<E>>,
) -> bool
    decreases timeout - elapsed,
{
    exists|split: int, polled: Result<Option<usize>, AicResponseError<E>>, middle: Seq<u8>|
        #![trigger receive_outcome(product, operations.take(split), before, middle, polled)]
        {
            &&& 0 <= split <= operations.len()
            &&& receive_outcome(product, operations.take(split), before, middle, polled)
            &&& match polled {
                Err(error) => split == operations.len() && after == middle && result == Err::<
                    ConfigResponseView,
                    AicResponseError<E>,
                >(error),
                Ok(Some(length)) => match spec_find_config_response(middle, length as nat, 0, expected) {
                    Err(error) => split == operations.len() && after == middle && result == Err::<
                        ConfigResponseView,
                        AicResponseError<E>,
                    >(AicResponseError::Protocol(error)),
                    Ok(Some(response)) => split == operations.len() && after == middle && result
                        == Ok::<ConfigResponseView, AicResponseError<E>>(response),
                    Ok(None) => if elapsed >= timeout {
                        split == operations.len() && after == middle && result == Err::<
                            ConfigResponseView,
                            AicResponseError<E>,
                        >(AicResponseError::Timeout { milliseconds: timeout })
                    } else {
                        config_wait(
                            product,
                            expected,
                            timeout,
                            elapsed + 1,
                            operations.skip(split),
                            middle,
                            after,
                            result,
                        )
                    },
                },
                Ok(None) => if elapsed >= timeout {
                    split == operations.len() && after == middle && result == Err::<
                        ConfigResponseView,
                        AicResponseError<E>,
                    >(AicResponseError::Timeout { milliseconds: timeout })
                } else {
                    &&& split < operations.len()
                    &&& operations[split] == BusOperation::DelayMs { milliseconds: 1 }
                    &&& config_wait(
                        product,
                        expected,
                        timeout,
                        elapsed + 1,
                        operations.skip(split + 1),
                        middle,
                        after,
                        result,
                    )
                },
            }
        }
}

/// A round that found nothing pending, then its wait, in front of the rest of a wait.
proof fn lemma_wait_idle_round<E>(
    product: Aic8800Product,
    expected: u16,
    timeout: u32,
    elapsed: nat,
    round: Seq<BusOperation>,
    storage: Seq<u8>,
    rest: Seq<BusOperation>,
    after: Seq<u8>,
    result: Result<ConfigResponseView, AicResponseError<E>>,
)
    requires
        elapsed < timeout,
        receive_outcome(product, round, storage, storage, Ok::<Option<usize>, AicResponseError<E>>(None)),
        config_wait(product, expected, timeout, elapsed + 1, rest, storage, after, result),
    ensures
        config_wait(
            product,
            expected,
            timeout,
            elapsed,
            round + seq![BusOperation::DelayMs { milliseconds: 1 }] + rest,
            storage,
            after,
            result,
        ),
{
    let operations = round + seq![BusOperation::DelayMs { milliseconds: 1 }] + rest;
    let split = round.len() as int;
    assert(operations.take(split) =~= round);
    assert(operations.skip(split + 1) =~= rest);
    assert(operations[split] == BusOperation::DelayMs { milliseconds: 1 });
    assert(receive_outcome(
        product,
        operations.take(split),
        storage,
        storage,
        Ok::<Option<usize>, AicResponseError<E>>(None),
    ));
}

/// A round that read a transfer without the response in front of the rest of a wait.
proof fn lemma_wait_searched_round<E>(
    product: Aic8800Product,
    expected: u16,
    timeout: u32,
    elapsed: nat,
    round: Seq<BusOperation>,
    before: Seq<u8>,
    middle: Seq<u8>,
    length: usize,
    rest: Seq<BusOperation>,
    after: Seq<u8>,
    result: Result<ConfigResponseView, AicResponseError<E>>,
)
    requires
        elapsed < timeout,
        receive_outcome(
            product,
            round,
            before,
            middle,
            Ok::<Option<usize>, AicResponseError<E>>(Some(length)),
        ),
        spec_find_config_response(middle, length as nat, 0, expected) == Ok::<
            Option<ConfigResponseView>,
            ProtocolError,
        >(None),
        config_wait(product, expected, timeout, elapsed + 1, rest, middle, after, result),
    ensures
        config_wait(product, expected, timeout, elapsed, round + rest, before, after, result),
{
    let operations = round + rest;
    let split = round.len() as int;
    assert(operations.take(split) =~= round);
    assert(operations.skip(split) =~= rest);
    assert(receive_outcome(
        product,
        operations.take(split),
        before,
        middle,
        Ok::<Option<usize>, AicResponseError<E>>(Some(length)),
    ));
}

/// A round that ends the wait.
proof fn lemma_wait_last_round<E>(
    product: Aic8800Product,
    expected: u16,
    timeout: u32,
    elapsed: nat,
    round: Seq<BusOperation>,
    before: Seq<u8>,
    middle: Seq<u8>,
    polled: Result<Option<usize>, AicResponseError<E>>,
    result: Result<ConfigResponseView, AicResponseError<E>>,
)
    requires
        receive_outcome(product, round, before, middle, polled),
        match polled {
            Err(error) => result == Err::<ConfigResponseView, AicResponseError<E>>(error),
            Ok(Some(length)) => match spec_find_config_response(middle, length as nat, 0, expected) {
                Err(error) => result == Err::<ConfigResponseView, AicResponseError<E>>(
                    AicResponseError::Protocol(error),
                ),
                Ok(Some(response)) => result == Ok::<ConfigResponseView, AicResponseError<E>>(response),
                Ok(None) => elapsed >= timeout && result == Err::<ConfigResponseView, AicResponseError<E>>(
                    AicResponseError::Timeout { milliseconds: timeout },
                ),
            },
            Ok(None) => elapsed >= timeout && result == Err::<ConfigResponseView, AicResponseError<E>>(
                AicResponseError::Timeout { milliseconds: timeout },
            ),
        },
    ensures
        config_wait(product, expected, timeout, elapsed, round, before, middle, result),
{
    let split = round.len() as int;
    assert(round.take(split) =~= round);
    assert(receive_outcome(product, round.take(split), before, middle, polled));
}

/// Waits up to `timeout_ms` milliseconds for the configuration response `expected_id`,
/// reading pending transfers into `output` and searching each one; the response
/// borrows from `output`.
pub fn read_config_response<'a, I: AicResponseIo>(
    io: &mut I,
    product: Aic8800Product,
    expected_id: u16,
    output: &'a mut [u8],
    timeout_ms: u32,
) -> (result: Result<ConfigResponse<'a>, AicResponseError<I::Error>>)
    ensures
        log_extends(old(io).bus_log(), final(io).bus_log()),
        final(output)@.len() == old(output)@.len(),
        !is_d80_family(product) <==> result == Err::<ConfigResponse<'a>, AicResponseError<I::Error>>(
            AicResponseError::UnsupportedProduct(product),
        ),
        result matches Ok(response) ==> response.id == expected_id && exists|length: nat|
            length <= final(output)@.len() && spec_find_config_response(
                final(output)@,
                length,
                0,
                expected_id,
            ) == Ok::<Option<ConfigResponseView>, ProtocolError>(Some(response@)),
        result matches Err(AicResponseError::Protocol(error)) ==> exists|length: nat|
            length <= final(output)@.len() && spec_find_config_response(
                final(output)@,
                length,
                0,
                expected_id,
            ) == Err::<Option<ConfigResponseView>, ProtocolError>(error),
        result matches Err(AicResponseError::Timeout { milliseconds }) ==> milliseconds
            == timeout_ms,
        result matches Err(AicResponseError::UnsupportedProduct(p)) ==> p == product
            && !is_d80_family(product),
        !(result matches Err(AicResponseError::UnexpectedResponseId { .. })),
        config_wait(
            product,
            expected_id,
            timeout_ms,
            0,
            final(io).bus_log().skip(old(io).bus_log().len() as int),
            old(output)@,
            final(output)@,
            config_result_view(result),
        ),
{
    let ghost start = io.bus_log();
    let ghost original = output@;
    let mut elapsed_ms: u32 = 0;
    proof {
        assert forall|
            rest: Seq<BusOperation>,
            after: Seq<u8>,
            r: Result<ConfigResponseView, AicResponseError<I::Error>>,
        |
            #[trigger] config_wait(product, expected_id, timeout_ms, 0, rest, original, after, r)
            implies config_wait(
                product,
                expected_id,
                timeout_ms,
                0,
                start.skip(start.len() as int) + rest,
                original,
                after,
                r,
            ) by {
            assert(start.skip(start.len() as int) + rest =~= rest);
        }
    }
    loop
        invariant_except_break
            forall|
                rest: Seq<BusOperation>,
                after: Seq<u8>,
                r: Result<ConfigResponseView, AicResponseError<I::Error>>,
            |
                #[trigger] config_wait(
                    product,
                    expected_id,
                    timeout_ms,
                    elapsed_ms as nat,
                    rest,
                    output@,
                    after,
                    r,
                )
                    ==> config_wait(
                        product,
                        expected_id,
                        timeout_ms,
                        0,
                        io.bus_log().skip(start.len() as int) + rest,
                        original,
                        after,
                        r,
                    ),
        invariant
            start == old(io).bus_log(),
            original == old(output)@,
            elapsed_ms <= timeout_ms,
            output@.len() == old(output)@.len(),
            log_extends(old(io).bus_log(), io.bus_log()),
            is_d80_family(product) || io.bus_log() == old(io).bus_log(),
        ensures
            is_d80_family(product),
            output@.len() == old(output)@.len(),
            log_extends(old(io).bus_log(), io.bus_log()),
            config_wait(
                product,
                expected_id,
                timeout_ms,
                0,
                io.bus_log().skip(start.len() as int),
                original,
                output@,
                Err::<ConfigResponseView, AicResponseError<I::Error>>(
                    AicResponseError::Timeout { milliseconds: timeout_ms },
                ),
            ),
        decreases timeout_ms - elapsed_ms,
    {
        let ghost before_log = io.bus_log();
        let ghost before_output = output@;
        let received = receive_pending_frame(io, product, output);
        let ghost round = io.bus_log().skip(before_log.len() as int);
        let ghost middle = output@;
        proof {
            assert(io.bus_log().skip(start.len() as int) =~= before_log.skip(start.len() as int) + round);
        }
        match received {
            Err(error) => {
                proof {
                    lemma_wait_last_round(
                        product,
                        expected_id,
                        timeout_ms,
                        elapsed_ms as nat,
                        round,
                        before_output,
                        middle,
                        received,
                        Err::<ConfigResponseView, AicResponseError<I::Error>>(error),
                    );
                    assert(before_log.skip(start.len() as int) + round =~= io.bus_log().skip(start.len() as int));
                }
                return Err(error);
            },
            Ok(Some(length)) => {
                let found = find_config_response(output, length, expected_id);
                match found {
                    Err(error) => {
                        proof {
                            lemma_wait_last_round(
                                product,
                                expected_id,
                                timeout_ms,
                                elapsed_ms as nat,
                                round,
                                before_output,
                                middle,
                                received,
                                Err::<ConfigResponseView, AicResponseError<I::Error>>(AicResponseError::Protocol(error)),
                            );
                        }
                        return Err(AicResponseError::Protocol(error));
                    },
                    Ok(Some((start_index, end))) => {
                        let frame: &'a [u8] = output;
                        let parsed = ConfigResponse::parse(&frame[start_index..end]);
                        proof {
                            if parsed is Ok {
                                lemma_wait_last_round(
                                    product,
                                    expected_id,
                                    timeout_ms,
                                    elapsed_ms as nat,
                                    round,
                                    before_output,
                                    middle,
                                    received,
                                    Ok::<ConfigResponseView, AicResponseError<I::Error>>(parsed->Ok_0@),
                                );
                            }
                        }
                        return match parsed {
                            Ok(response) => Ok(response),
                            Err(error) => Err(AicResponseError::Protocol(error)),
                        };
                    },
                    Ok(None) => {},
                }
                if elapsed_ms >= timeout_ms {
                    proof {
                        lemma_wait_last_round(
                            product,
                            expected_id,
                            timeout_ms,
                            elapsed_ms as nat,
                            round,
                            before_output,
                            middle,
                            received,
                            Err::<ConfigResponseView, AicResponseError<I::Error>>(AicResponseError::Timeout { milliseconds: timeout_ms }),
                        );
                    }
                    break ;
                }
                proof {
                    assert forall|
                        rest: Seq<BusOperation>,
                        after: Seq<u8>,
                        r: Result<ConfigResponseView, AicResponseError<I::Error>>,
                    |
                        #[trigger] config_wait(
                            product,
                            expected_id,
                            timeout_ms,
                            (elapsed_ms + 1) as nat,
                            rest,
                            middle,
                            after,
                            r,
                        )
                        implies config_wait(
                            product,
                            expected_id,
                            timeout_ms,
                            0,
                            io.bus_log().skip(start.len() as int) + rest,
                            original,
                            after,
                            r,
                        ) by {
                        lemma_wait_searched_round(
                            product,
                            expected_id,
                            timeout_ms,
                            elapsed_ms as nat,
                            round,
                            before_output,
                            middle,
                            length,
                            rest,
                            after,
                            r,
                        );
                        assert(before_log.skip(start.len() as int) + (round + rest) =~= io.bus_log().skip(start.len() as int) + rest);
                    }
                }
                elapsed_ms = elapsed_ms + 1;
            },
            Ok(None) => {
                if elapsed_ms >= timeout_ms {
                    proof {
                        lemma_wait_last_round(
                            product,
                            expected_id,
                            timeout_ms,
                            elapsed_ms as nat,
                            round,
                            before_output,
                            middle,
                            received,
                            Err::<ConfigResponseView, AicResponseError<I::Error>>(AicResponseError::Timeout { milliseconds: timeout_ms }),
                        );
                    }
                    break ;
                }
                io.delay_ms(1);
                proof {
                    let delay = seq![BusOperation::DelayMs { milliseconds: 1 }];
                    assert(io.bus_log().skip(start.len() as int) =~= before_log.skip(start.len() as int) + round + delay);
                    assert forall|
                        rest: Seq<BusOperation>,
                        after: Seq<u8>,
                        r: Result<ConfigResponseView, AicResponseError<I::Error>>,
                    |
                        #[trigger] config_wait(
                            product,
                            expected_id,
                            timeout_ms,
                            (elapsed_ms + 1) as nat,
                            rest,
                            middle,
                            after,
                            r,
                        )
                        implies config_wait(
                            product,
                            expected_id,
                            timeout_ms,
                            0,
                            io.bus_log().skip(start.len() as int) + rest,
                            original,
                            after,
                            r,
                        ) by {
                        lemma_wait_idle_round(
                            product,
                            expected_id,
                            timeout_ms,
                            elapsed_ms as nat,
                            round,
                            middle,
                            rest,
                            after,
                            r,
                        );
                        assert(before_log.skip(start.len() as int) + (round + delay + rest) =~= io.bus_log().skip(start.len() as int) + rest);
                    }
                }
                elapsed_ms = elapsed_ms + 1;
            },
        }
    }
    Err(AicResponseError::Timeout { milliseconds: timeout_ms })
}

} // verus!
