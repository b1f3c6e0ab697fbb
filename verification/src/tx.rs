//! Transmit path of D80 chips: a data frame (SDIO header, FullMAC host descriptor and
//! Ethernet payload) padded to whole SDIO blocks, and its submission under data flow
//! control.
use vstd::prelude::*;

use crate::bytes::{
    be16, le16, le32, push_be16, push_le16, push_le32, push_slice, push_zeros, zeros,
};
use crate::device::spec_v3_registers;
use crate::protocol::{crc8_polynomial_0x107, spec_crc8};
use crate::sdio::{AicCommandIo, BusOperation, log_extends};

verus! {

/// The descriptor flag that asks the firmware for a transmit confirmation.
pub const CONFIRMATION_REQUESTED: u32 = 0x8000_0000;

/// Addressing of an EAPOL frame to transmit.
#[derive(Clone, Copy, Debug, Eq, PartialEq)]
pub struct EapolTransmitParameters {
    pub destination_address: [u8; 6],
    pub source_address: [u8; 6],
    pub interface_index: u8,
    pub station_index: u8,
    pub confirmation_index: u32,
}

/// Addressing of an Ethernet frame to transmit.
#[derive(Clone, Copy, Debug, Eq, PartialEq)]
pub struct EthernetTransmitParameters {
    pub destination_address: [u8; 6],
    pub source_address: [u8; 6],
    pub ether_type: u16,
    pub interface_index: u8,
    pub station_index: u8,
    pub confirmation_index: u32,
}

/// The length of a data frame and of the SDIO transfer that carries it.
#[derive(Clone, Copy, Debug, Eq, PartialEq, Structural)]
pub struct DataTransferLengths {
    pub frame_length: usize,
    pub transfer_length: usize,
}

#[derive(Clone, Copy, Debug, Eq, PartialEq, Structural)]
pub enum DataTransmitError {
    PayloadTooLong { maximum: usize, actual: usize },
    OutputTooShort { required: usize, available: usize },
}

#[derive(Clone, Copy, Debug, Eq, PartialEq)]
pub enum DataSendError<E> {
    Io(E),
    InvalidTransferLength { length: usize },
    InsufficientFlowControl { buffer_count: u8 },
}

/// The payload a data frame can carry: the 12-bit length field covers the descriptor too.
pub open spec fn maximum_payload_length() -> nat {
    4067
}

/// The transfer length of a data frame: aligned to four bytes; unless that is a whole
/// number of blocks, a four-byte tail is added and the result rounded up to a block.
pub open spec fn data_transfer_length(frame_length: nat) -> nat {
    let aligned = ((frame_length + 3) / 4) * 4;
    if aligned % 512 == 0 {
        aligned
    } else {
        ((aligned + 4 + 511) / 512) * 512
    }
}

/// The transfer length is the least multiple of 512 bytes that holds the frame.
pub proof fn lemma_data_transfer_length_is_least_block_multiple(frame_length: nat)
    ensures
        data_transfer_length(frame_length) % 512 == 0,
        frame_length <= data_transfer_length(frame_length) < frame_length + 512,
{
    let aligned = ((frame_length + 3) / 4) * 4;
    assert(frame_length <= aligned <= frame_length + 3 && aligned % 4 == 0) by (nonlinear_arith)
        requires
            aligned == ((frame_length + 3) / 4) * 4,
    ;
    if aligned % 512 != 0 {
        let t = ((aligned + 4 + 511) / 512) * 512;
        assert(4 <= aligned % 512 <= 508) by (nonlinear_arith)
            requires
                aligned % 4 == 0,
                aligned % 512 != 0,
        ;
        let q = aligned / 512;
        assert(aligned == 512 * q + aligned % 512) by (nonlinear_arith)
            requires
                q == aligned / 512,
        ;
        assert((aligned + 4 + 511) / 512 == q + 1) by (nonlinear_arith)
            requires
                aligned == 512 * q + aligned % 512,
                4 <= aligned % 512 <= 508,
        ;
        assert(t == 512 * (q + 1));
        assert(t % 512 == 0) by (nonlinear_arith)
            requires
                t == 512 * (q + 1),
        ;
    }
}

/// A data frame: the SDIO header (the 12-bit length of descriptor and payload, the data
/// type and the CRC-8 of these three bytes), the 28-byte host descriptor, then the
/// payload.
pub open spec fn data_frame(parameters: EthernetTransmitParameters, payload: Seq<u8>) -> Seq<u8> {
    data_frame_of(
        parameters.destination_address@,
        parameters.source_address@,
        parameters.ether_type,
        parameters.interface_index,
        parameters.station_index,
        parameters.confirmation_index,
        payload,
    )
}

/// The data frame of an Ethernet payload with the given addressing.
pub open spec fn data_frame_of(
    destination_address: Seq<u8>,
    source_address: Seq<u8>,
    ether_type: u16,
    interface_index: u8,
    station_index: u8,
    confirmation_index: u32,
    payload: Seq<u8>,
) -> Seq<u8> {
    let length = 28 + payload.len();
    let head = seq![(length % 256) as u8, ((length / 256) % 16) as u8, 0x01u8];
    head + seq![spec_crc8(head)] + le16(payload.len() as u16) + zeros(2) + le32(
        CONFIRMATION_REQUESTED | confirmation_index,
    ) + destination_address + source_address + be16(ether_type) + seq![
        1u8,
        0u8,
        interface_index,
        station_index,
    ] + zeros(2) + payload
}

/// Why a payload cannot be framed into `available` bytes, if it cannot.
pub open spec fn data_transfer_error(payload_length: nat, available: nat) -> Option<DataTransmitError> {
    if payload_length > maximum_payload_length() {
        Some(
            DataTransmitError::PayloadTooLong {
                maximum: maximum_payload_length() as usize,
                actual: payload_length as usize,
            },
        )
    } else if available < data_transfer_length(32 + payload_length) {
        Some(
            DataTransmitError::OutputTooShort {
                required: data_transfer_length(32 + payload_length) as usize,
                available: available as usize,
            },
        )
    } else {
        None
    }
}

/// Writes the SDIO transfer of an Ethernet frame at the front of `output`: the data frame
/// followed by zeros up to the transfer length.
pub fn build_d80_ethernet_data_transfer(
    output: &mut [u8],
    parameters: EthernetTransmitParameters,
    payload: &[u8],
) -> (result: Result<DataTransferLengths, DataTransmitError>)
    ensures
        match result {
            Ok(lengths) => data_transfer_error(payload@.len(), old(output)@.len()) is None
                && lengths.frame_length == 32 + payload@.len() && lengths.transfer_length
                == data_transfer_length(32 + payload@.len()) && final(output)@ == data_frame(
                parameters,
                payload@,
            ) + zeros((lengths.transfer_length - lengths.frame_length) as nat) + old(output)@.skip(
                lengths.transfer_length as int,
            ),
            Err(error) => data_transfer_error(payload@.len(), old(output)@.len()) == Some(error)
                && final(output)@ == old(output)@,
        },
{
    let maximum = 0x0fff - 28;
    if payload.len() > maximum {
        return Err(DataTransmitError::PayloadTooLong { maximum, actual: payload.len() });
    }
    let length = 28 + payload.len();
    let frame_length = 4 + length;
    let aligned = (frame_length + 3) / 4 * 4;
    let transfer_length = if aligned % 512 == 0 {
        aligned
    } else {
        (aligned + 4 + 511) / 512 * 512
    };
    if output.len() < transfer_length {
        return Err(DataTransmitError::OutputTooShort { required: transfer_length, available: output.len() });
    }
    let mut frame: Vec<u8> = Vec::new();
    frame.push((length % 256) as u8);
    frame.push(((length / 256) % 16) as u8);
    frame.push(0x01);
    let ghost head = seq![(length % 256) as u8, ((length / 256) % 16) as u8, 0x01u8];
    assert(frame@ =~= head);
    let check = crc8_polynomial_0x107(frame.as_slice());
    frame.push(check);
    assert(frame@ =~= head + seq![spec_crc8(head)]);
    push_le16(&mut frame, payload.len() as u16);
    push_zeros(&mut frame, 2);
    push_le32(&mut frame, CONFIRMATION_REQUESTED | parameters.confirmation_index);
    push_slice(&mut frame, &parameters.destination_address);
    push_slice(&mut frame, &parameters.source_address);
    push_be16(&mut frame, parameters.ether_type);
    frame.push(1);
    frame.push(0);
    frame.push(parameters.interface_index);
    frame.push(parameters.station_index);
    push_zeros(&mut frame, 2);
    push_slice(&mut frame, payload);
    assert(frame@ =~= data_frame(parameters, payload@));
    push_zeros(&mut frame, transfer_length - frame_length);
    crate::bytes::copy_prefix(output, frame.as_slice());
    Ok(DataTransferLengths { frame_length, transfer_length })
}

/// Writes the SDIO transfer of an EAPOL frame: an Ethernet frame of type 0x888e.
pub fn build_d80_eapol_data_transfer(
    output: &mut [u8],
    parameters: EapolTransmitParameters,
    payload: &[u8],
) -> (result: Result<DataTransferLengths, DataTransmitError>)
    ensures
        ({
            let ethernet = EthernetTransmitParameters {
                destination_address: parameters.destination_address,
                source_address: parameters.source_address,
                ether_type: 0x888e,
                interface_index: parameters.interface_index,
                station_index: parameters.station_index,
                confirmation_index: parameters.confirmation_index,
            };
            match result {
                Ok(lengths) => data_transfer_error(payload@.len(), old(output)@.len()) is None
                    && lengths.frame_length == 32 + payload@.len() && lengths.transfer_length
                    == data_transfer_length(32 + payload@.len()) && final(output)@ == data_frame(
                    ethernet,
                    payload@,
                ) + zeros((lengths.transfer_length - lengths.frame_length) as nat) + old(
                    output,
                )@.skip(lengths.transfer_length as int),
                Err(error) => data_transfer_error(payload@.len(), old(output)@.len()) == Some(error)
                    && final(output)@ == old(output)@,
            }
        }),
{
    build_d80_ethernet_data_transfer(
        output,
        EthernetTransmitParameters {
            destination_address: parameters.destination_address,
            source_address: parameters.source_address,
            ether_type: 0x888e,
            interface_index: parameters.interface_index,
            station_index: parameters.station_index,
            confirmation_index: parameters.confirmation_index,
        },
        payload,
    )
}

// ---------------------------------------------------------------------------
// Data flow control.
// ---------------------------------------------------------------------------

/// A read of the D80 flow-control register, with what it answered.
pub open spec fn data_flow_read(value: Option<u8>) -> BusOperation {
    BusOperation::ReadRegister {
        function: 1,
        address: spec_v3_registers().flow_control as u32,
        value,
    }
}

/// The wait after the `count`-th read without enough buffers: 200 µs up to the 29th,
/// 2 ms up to the 39th, then 10 ms.
pub open spec fn data_flow_delay(count: nat) -> BusOperation {
    if count < 30 {
        BusOperation::DelayUs { microseconds: 200 }
    } else if count < 40 {
        BusOperation::DelayMs { milliseconds: 2 }
    } else {
        BusOperation::DelayMs { milliseconds: 10 }
    }
}

/// The operations of a data flow-control poll whose reads answered `values`, each read
/// but the last followed by its wait.
pub open spec fn data_poll_operations(values: Seq<u8>) -> Seq<BusOperation>
    decreases values.len(),
{
    if values.len() == 0 {
        seq![]
    } else if values.len() == 1 {
        seq![data_flow_read(Some(values[0]))]
    } else {
        data_poll_operations(values.drop_last()) + seq![
            data_flow_delay((values.len() - 1) as nat),
            data_flow_read(Some(values.last())),
        ]
    }
}

/// A poll is its reads in order, each but the last followed by the wait for its count:
/// 200 µs after the first 29 reads, 2 ms after the next ten, 10 ms after the rest.
pub proof fn lemma_data_poll_shape(values: Seq<u8>)
    requires
        values.len() >= 1,
    ensures
        data_poll_operations(values).len() == 2 * values.len() - 1,
        forall|k: int|
            0 <= k < values.len() ==> #[trigger] data_poll_operations(values)[2 * k] == data_flow_read(
                Some(values[k]),
            ),
        forall|k: int|
            0 <= k < values.len() - 1 ==> #[trigger] data_poll_operations(values)[2 * k + 1]
                == data_flow_delay((k + 1) as nat),
    decreases values.len(),
{
    if values.len() > 1 {
        let front = values.drop_last();
        lemma_data_poll_shape(front);
        let n = values.len() as int;
        let ops = data_poll_operations(values);
        assert(ops == data_poll_operations(front) + seq![
            data_flow_delay((n - 1) as nat),
            data_flow_read(Some(values.last())),
        ]);
        assert forall|k: int| 0 <= k < n implies #[trigger] ops[2 * k] == data_flow_read(
            Some(values[k]),
        ) by {
            if k < n - 1 {
                assert(ops[2 * k] == data_poll_operations(front)[2 * k]);
                assert(front[k] == values[k]);
            }
        }
        assert forall|k: int| 0 <= k < n - 1 implies #[trigger] ops[2 * k + 1] == data_flow_delay(
            (k + 1) as nat,
        ) by {
            if k < n - 2 {
                assert(ops[2 * k + 1] == data_poll_operations(front)[2 * k + 1]);
            }
        }
    }
}

/// Whether `values` are at most two, the firmware's reserve.
pub open spec fn all_reserved(values: Seq<u8>) -> bool {
    forall|i: int| 0 <= i < values.len() ==> #[trigger] values[i] <= 2
}

/// The D80 data FIFO write of `transfer`.
pub open spec fn data_fifo_write(transfer: Seq<u8>, succeeded: bool) -> BusOperation {
    BusOperation::WriteFifo {
        function: 1,
        address: spec_v3_registers().write_fifo as u32,
        data: transfer,
        succeeded,
    }
}

/// Whether `operations` and `result` are a submission of `transfer`: reads of the
/// flow-control register until more than two buffers are free, at most 51 of them with
/// waits between, then one FIFO write of the transfer.
pub open spec fn data_send_outcome<E>(
    transfer: Seq<u8>,
    operations: Seq<BusOperation>,
    result: Result<(), DataSendError<E>>,
) -> bool {
    exists|values: Seq<u8>|
        #![trigger data_poll_operations(values)]
        {
            &&& 1 <= values.len() <= 51
            &&& all_reserved(values.drop_last())
            &&& match result {
                Ok(_) => values.last() > 2 && operations == data_poll_operations(values).push(
                    data_fifo_write(transfer, true),
                ),
                Err(DataSendError::InsufficientFlowControl { buffer_count }) => values.len() == 51
                    && values.last() <= 2 && buffer_count == values.last() && operations
                    == data_poll_operations(values),
                Err(DataSendError::Io(_)) => (values.last() > 2 && operations
                    == data_poll_operations(values).push(data_fifo_write(transfer, false))) || (
                values.last() <= 2 && operations == data_poll_operations(values.drop_last())
                    + if values.len() == 1 {
                    seq![data_flow_read(None)]
                } else {
                    seq![data_flow_delay((values.len() - 1) as nat), data_flow_read(None)]
                }),
                Err(_) => false,
            }
        }
}

/// Submits a data transfer to a D80: waits until more than two firmware buffers are free,
/// then writes the transfer to the FIFO of function one.
pub fn send_d80_data_transfer<I: AicCommandIo>(io: &mut I, transfer: &mut [u8]) -> (result: Result<
    (),
    DataSendError<I::Error>,
>)
    ensures
        log_extends(old(io).bus_log(), final(io).bus_log()),
        (old(transfer)@.len() == 0 || old(transfer)@.len() % 512 != 0) ==> result == Err::<
            (),
            DataSendError<I::Error>,
        >(DataSendError::InvalidTransferLength { length: old(transfer)@.len() as usize })
            && final(io).bus_log() == old(io).bus_log(),
        !(old(transfer)@.len() == 0 || old(transfer)@.len() % 512 != 0) ==> data_send_outcome(
            old(transfer)@,
            final(io).bus_log().skip(old(io).bus_log().len() as int),
            result,
        ),
{
    if transfer.len() == 0 || transfer.len() % 512 != 0 {
        return Err(DataSendError::InvalidTransferLength { length: transfer.len() });
    }
    let ghost start = io.bus_log();
    let ghost sent = transfer@;
    let ghost mut values: Seq<u8> = seq![];
    let registers = crate::device::v3_registers();
    let address = registers.flow_control as u32;
    let mut count: u32 = 0;
    loop
        invariant
            start == old(io).bus_log(),
            sent == old(transfer)@,
            !(sent.len() == 0 || sent.len() % 512 != 0),
            transfer@ == sent,
            registers == spec_v3_registers(),
            address == spec_v3_registers().flow_control as u32,
            count <= 50,
            values.len() == count,
            all_reserved(values),
            count == 0 ==> io.bus_log() == start,
            count > 0 ==> io.bus_log() == start + data_poll_operations(values) + seq![
                data_flow_delay(count as nat),
            ],
        decreases 51 - count,
    {
        let read = AicCommandIo::read_register(io, 1, address);
        let value = match read {
            Ok(value) => value,
            Err(error) => {
                proof {
                    let next = values.push(0u8);
                    assert(next.drop_last() =~= values);
                    let ops = io.bus_log().skip(start.len() as int);
                    if count == 0 {
                        assert(ops =~= data_poll_operations(values) + seq![data_flow_read(None)]);
                    } else {
                        assert(ops =~= data_poll_operations(values) + seq![
                            data_flow_delay(count as nat),
                            data_flow_read(None),
                        ]);
                    }
                    assert(data_poll_operations(next).len() >= 0);
                    assert(all_reserved(next.drop_last()));
                    assert(data_send_outcome(sent, ops, Err::<(), DataSendError<I::Error>>(
                        DataSendError::Io(error),
                    )));
                }
                return Err(DataSendError::Io(error));
            },
        };
        proof {
            let next = values.push(value);
            assert(next.drop_last() =~= values);
            if count == 0 {
                assert(data_poll_operations(next) =~= seq![data_flow_read(Some(value))]);
            }
            assert(io.bus_log() =~= start + data_poll_operations(next));
            values = next;
        }
        if value > 2 {
            let ghost before = io.bus_log();
            let written = AicCommandIo::write_fifo(io, 1, registers.write_fifo as u32, transfer);
            proof {
                let ops = io.bus_log().skip(start.len() as int);
                assert(ops =~= data_poll_operations(values).push(
                    data_fifo_write(sent, written is Ok),
                ));
            }
            return match written {
                Ok(()) => Ok(()),
                Err(error) => Err(DataSendError::Io(error)),
            };
        }
        if count >= 50 {
            proof {
                let ops = io.bus_log().skip(start.len() as int);
                assert(ops =~= data_poll_operations(values));
            }
            return Err(DataSendError::InsufficientFlowControl { buffer_count: value });
        }
        count = count + 1;
        if count < 30 {
            AicCommandIo::delay_us(io, 200);
        } else if count < 40 {
            AicCommandIo::delay_ms(io, 2);
        } else {
            AicCommandIo::delay_ms(io, 10);
        }
        assert(io.bus_log() =~= start + data_poll_operations(values) + seq![
            data_flow_delay(count as nat),
        ]);
    }
}

} // verus!
