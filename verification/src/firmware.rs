//! Messages of the firmware's debug task (memory read and write, block write, start) and
//! the upload of a firmware image in 1024-byte blocks.
use vstd::prelude::*;

use crate::bytes::{copy_at, copy_prefix, le32, le32_at, le32_bytes, read_le32};
use crate::device::{Aic8800Product, spec_command_header_mode};
use crate::response::AicResponseIo;
use crate::protocol::ConfigResponseView;
use crate::sdio::{AicCommandIo, BusOperation, appended, command_fifo_write, log_extends};
use crate::transaction::{
    AicTransactionError, execute_config_command, round_trip, sent_command, spec_command_transfer,
    transaction_view,
};

verus! {

/// Task identifier of the firmware's debug task.
pub const DEBUG_TASK_ID: u16 = 1;

/// Task identifier of the host driver.
pub const DRIVER_TASK_ID: u16 = 100;

pub const DBG_MEM_READ_REQUEST: u16 = 0x0400;

pub const DBG_MEM_READ_CONFIRM: u16 = 0x0401;

pub const DBG_MEM_WRITE_REQUEST: u16 = 0x0402;

pub const DBG_MEM_WRITE_CONFIRM: u16 = 0x0403;

pub const DBG_MEM_BLOCK_WRITE_REQUEST: u16 = 0x040b;

pub const DBG_MEM_BLOCK_WRITE_CONFIRM: u16 = 0x040c;

pub const DBG_START_APP_REQUEST: u16 = 0x040d;

pub const DBG_START_APP_CONFIRM: u16 = 0x040e;

/// The largest block of one block write.
pub const MAX_FIRMWARE_BLOCK_SIZE: usize = 1024;

#[derive(Clone, Copy, Debug, Eq, PartialEq, Structural)]
pub enum DebugMemoryReadError {
    OutputTooShort { required: usize, available: usize },
    TruncatedConfirmation { required: usize, available: usize },
    AddressMismatch { expected: u32, actual: u32 },
}

#[derive(Clone, Copy, Debug, Eq, PartialEq, Structural)]
pub enum DebugMemoryWriteError {
    OutputTooShort { required: usize, available: usize },
}

#[derive(Clone, Copy, Debug, Eq, PartialEq, Structural)]
pub enum DebugStartAppError {
    OutputTooShort { required: usize, available: usize },
    TruncatedConfirmation { required: usize, available: usize },
}

#[derive(Clone, Copy, Debug, Eq, PartialEq, Structural)]
pub enum FirmwareBlockError {
    BlockTooLong { length: usize },
    OutputTooShort { required: usize, available: usize },
}

#[derive(Clone, Copy, Debug, Eq, PartialEq)]
pub enum FirmwareUploadError<E> {
    EmptyImage,
    AddressOverflow,
    Encode(FirmwareBlockError),
    Transaction(AicTransactionError<E>),
}

/// Writes the memory read request parameter (the address) at the front of `output`.
pub fn encode_debug_memory_read_parameters(output: &mut [u8], memory_address: u32) -> (result:
    Result<usize, DebugMemoryReadError>)
    ensures
        old(output)@.len() < 4 ==> result == Err::<usize, DebugMemoryReadError>(
            DebugMemoryReadError::OutputTooShort { required: 4, available: old(output).len() },
        ) && final(output)@ == old(output)@,
        old(output)@.len() >= 4 ==> result == Ok::<usize, DebugMemoryReadError>(4) && final(output)@
            == le32(memory_address) + old(output)@.skip(4),
{
    if output.len() < 4 {
        return Err(DebugMemoryReadError::OutputTooShort { required: 4, available: output.len() });
    }
    copy_prefix(output, &le32_bytes(memory_address));
    Ok(4)
}

/// The word in a memory read confirmation, which must echo the address asked for.
pub open spec fn spec_debug_memory_read_confirmation(parameter: Seq<u8>, expected_address: u32) -> Result<
    u32,
    DebugMemoryReadError,
> {
    if parameter.len() < 8 {
        Err(
            DebugMemoryReadError::TruncatedConfirmation {
                required: 8,
                available: parameter.len() as usize,
            },
        )
    } else if le32_at(parameter, 0) != expected_address {
        Err(
            DebugMemoryReadError::AddressMismatch {
                expected: expected_address,
                actual: le32_at(parameter, 0),
            },
        )
    } else {
        Ok(le32_at(parameter, 4))
    }
}

/// Reads the word from a memory read confirmation.
pub fn decode_debug_memory_read_confirmation(parameter: &[u8], expected_address: u32) -> (result:
    Result<u32, DebugMemoryReadError>)
    ensures
        result == spec_debug_memory_read_confirmation(parameter@, expected_address),
{
    if parameter.len() < 8 {
        return Err(
            DebugMemoryReadError::TruncatedConfirmation { required: 8, available: parameter.len() },
        );
    }
    let actual_address = read_le32(parameter, 0);
    if actual_address != expected_address {
        return Err(
            DebugMemoryReadError::AddressMismatch { expected: expected_address, actual: actual_address },
        );
    }
    Ok(read_le32(parameter, 4))
}

/// Writes the memory write request parameter (address, then value) at the front of
/// `output`.
pub fn encode_debug_memory_write_parameters(output: &mut [u8], memory_address: u32, value: u32) -> (result:
    Result<usize, DebugMemoryWriteError>)
    ensures
        old(output)@.len() < 8 ==> result == Err::<usize, DebugMemoryWriteError>(
            DebugMemoryWriteError::OutputTooShort { required: 8, available: old(output).len() },
        ) && final(output)@ == old(output)@,
        old(output)@.len() >= 8 ==> result == Ok::<usize, DebugMemoryWriteError>(8) && final(output)@
            == le32(memory_address) + le32(value) + old(output)@.skip(8),
{
    if output.len() < 8 {
        return Err(DebugMemoryWriteError::OutputTooShort { required: 8, available: output.len() });
    }
    let ghost original = output@;
    copy_prefix(output, &le32_bytes(memory_address));
    copy_at(output, 4, &le32_bytes(value));
    assert(output@ =~= le32(memory_address) + le32(value) + original.skip(8));
    Ok(8)
}

/// Writes the start request parameter (boot address, then boot type) at the front of
/// `output`.
pub fn encode_debug_start_app_parameters(output: &mut [u8], boot_address: u32, boot_type: u32) -> (result:
    Result<usize, DebugStartAppError>)
    ensures
        old(output)@.len() < 8 ==> result == Err::<usize, DebugStartAppError>(
            DebugStartAppError::OutputTooShort { required: 8, available: old(output).len() },
        ) && final(output)@ == old(output)@,
        old(output)@.len() >= 8 ==> result == Ok::<usize, DebugStartAppError>(8) && final(output)@
            == le32(boot_address) + le32(boot_type) + old(output)@.skip(8),
{
    if output.len() < 8 {
        return Err(DebugStartAppError::OutputTooShort { required: 8, available: output.len() });
    }
    let ghost original = output@;
    copy_prefix(output, &le32_bytes(boot_address));
    copy_at(output, 4, &le32_bytes(boot_type));
    assert(output@ =~= le32(boot_address) + le32(boot_type) + original.skip(8));
    Ok(8)
}

/// The status word of a start confirmation.
pub open spec fn spec_debug_start_app_confirmation(parameter: Seq<u8>) -> Result<u32, DebugStartAppError> {
    if parameter.len() < 4 {
        Err(
            DebugStartAppError::TruncatedConfirmation {
                required: 4,
                available: parameter.len() as usize,
            },
        )
    } else {
        Ok(le32_at(parameter, 0))
    }
}

/// Reads the status word of a start confirmation.
pub fn decode_debug_start_app_confirmation(parameter: &[u8]) -> (result: Result<u32, DebugStartAppError>)
    ensures
        result == spec_debug_start_app_confirmation(parameter@),
{
    if parameter.len() < 4 {
        return Err(DebugStartAppError::TruncatedConfirmation { required: 4, available: parameter.len() });
    }
    Ok(read_le32(parameter, 0))
}

/// The block write parameter: the address, the block length and the block.
pub open spec fn block_write_parameter(memory_address: u32, block: Seq<u8>) -> Seq<u8> {
    le32(memory_address) + le32(block.len() as u32) + block
}

/// Why a block cannot be encoded into `available` bytes, if it cannot: a block has at
/// most 1024 bytes and needs eight more for its header.
pub open spec fn firmware_block_error(block_length: usize, available: usize) -> Option<FirmwareBlockError> {
    if block_length > 1024 {
        Some(FirmwareBlockError::BlockTooLong { length: block_length })
    } else if available < 8 + block_length {
        Some(FirmwareBlockError::OutputTooShort { required: (8 + block_length) as usize, available })
    } else {
        None
    }
}

/// Writes the block write parameter for `block` at `memory_address` at the front of
/// `output` and returns its length.
pub fn encode_firmware_block_write_parameters(
    output: &mut [u8],
    memory_address: u32,
    block: &[u8],
) -> (result:
    Result<usize, FirmwareBlockError>)
    ensures
        match result {
            Ok(length) => firmware_block_error(block.len(), old(output).len()) is None && length == 8
                + block@.len() && final(output)@ == block_write_parameter(memory_address, block@)
                + old(output)@.skip(length as int),
            Err(error) => firmware_block_error(block.len(), old(output).len()) == Some(error)
                && final(output)@ == old(output)@,
        },
{
    if block.len() > MAX_FIRMWARE_BLOCK_SIZE {
        return Err(FirmwareBlockError::BlockTooLong { length: block.len() });
    }
    let required = 8 + block.len();
    if output.len() < required {
        return Err(FirmwareBlockError::OutputTooShort { required, available: output.len() });
    }
    let ghost original = output@;
    copy_prefix(output, &le32_bytes(memory_address));
    copy_at(output, 4, &le32_bytes(block.len() as u32));
    copy_at(output, 8, block);
    assert(output@ =~= block_write_parameter(memory_address, block@) + original.skip(
        required as int,
    ));
    Ok(required)
}

/// The number of 1024-byte blocks of an image, the last one possibly shorter.
pub open spec fn block_count(image_length: nat) -> nat {
    (image_length + 1023) as nat / 1024
}

/// Block `k` of an image.
pub open spec fn image_block(image: Seq<u8>, k: nat) -> Seq<u8> {
    let start: int = 1024 * k as int;
    let end: int = if start + 1024 <= image.len() {
        start + 1024
    } else {
        image.len() as int
    };
    image.subrange(start, end)
}

/// The transfer that writes block `k` of an image based at `base_address`.
pub open spec fn upload_block_transfer(
    product: Aic8800Product,
    base_address: u32,
    image: Seq<u8>,
    k: nat,
) -> Seq<u8> {
    spec_command_transfer(
        spec_command_header_mode(product),
        DBG_MEM_BLOCK_WRITE_REQUEST,
        DEBUG_TASK_ID,
        DRIVER_TASK_ID,
        block_write_parameter((base_address + 1024 * k) as u32, image_block(image, k)),
    )
}

/// Whether `positions` are where, in order, the first `positions.len()` block writes of an
/// image upload stand in `operations`.
pub open spec fn blocks_written_at(
    product: Aic8800Product,
    base_address: u32,
    image: Seq<u8>,
    operations: Seq<BusOperation>,
    positions: Seq<int>,
) -> bool {
    &&& forall|k: int|
        0 <= k < positions.len() ==> 0 <= #[trigger] positions[k] < operations.len()
            && operations[positions[k]] == command_fifo_write(
            product,
            upload_block_transfer(product, base_address, image, k as nat),
            true,
        )
    &&& forall|k: int, j: int| 0 <= k < j < positions.len() ==> positions[k] < positions[j]
}

/// Whether `operations` split at `splits` into the block write round trips of blocks `0`,
/// `1`, .. of an image based at `base_address`, one per outcome in `outcomes`, receive
/// storage holding `stored[k]` before block `k` and `stored[k + 1]` after it; every round
/// trip but the last succeeded.
pub open spec fn block_exchanges<E>(
    product: Aic8800Product,
    base_address: u32,
    image: Seq<u8>,
    capacity: nat,
    timeout: u32,
    operations: Seq<BusOperation>,
    splits: Seq<int>,
    stored: Seq<Seq<u8>>,
    outcomes: Seq<Result<ConfigResponseView, AicTransactionError<E>>>,
) -> bool {
    &&& splits.len() == outcomes.len() + 1
    &&& stored.len() == outcomes.len() + 1
    &&& splits[0] == 0
    &&& splits.last() == operations.len()
    &&& forall|j: int, k: int|
        0 <= j <= k <= outcomes.len() ==> #[trigger] splits[j] <= #[trigger] splits[k]
    &&& forall|k: int|
        0 <= k < outcomes.len() ==> #[trigger] round_trip(
            product,
            DBG_MEM_BLOCK_WRITE_REQUEST,
            DEBUG_TASK_ID,
            DRIVER_TASK_ID,
            block_write_parameter((base_address + 1024 * k) as u32, image_block(image, k as nat)),
            DBG_MEM_BLOCK_WRITE_CONFIRM,
            capacity,
            timeout,
            operations.subrange(splits[k], splits[k + 1]),
            stored[k],
            stored[k + 1],
            outcomes[k],
        )
    &&& forall|k: int| 0 <= k < outcomes.len() - 1 ==> (#[trigger] outcomes[k]) is Ok
}

/// Whether `operations`, receive storage going from `before` to `after`, are the block
/// write round trips of the first `count` blocks of an image based at `base_address`, in
/// order, each but the last succeeding; the last ended with `last` when that is an error,
/// and succeeded when it is `None`.
pub open spec fn upload_exchanges<E>(
    product: Aic8800Product,
    base_address: u32,
    image: Seq<u8>,
    capacity: nat,
    timeout: u32,
    operations: Seq<BusOperation>,
    before: Seq<u8>,
    after: Seq<u8>,
    count: nat,
    last: Option<AicTransactionError<E>>,
) -> bool {
    exists|
        splits: Seq<int>,
        stored: Seq<Seq<u8>>,
        outcomes: Seq<Result<ConfigResponseView, AicTransactionError<E>>>,
    |
        #[trigger] block_exchanges(
            product,
            base_address,
            image,
            capacity,
            timeout,
            operations,
            splits,
            stored,
            outcomes,
        ) && outcomes.len() == count && stored[0] == before && stored.last() == after && match last {
            None => count == 0 || outcomes.last() is Ok,
            Some(error) => count >= 1 && outcomes.last() == Err::<ConfigResponseView, AicTransactionError<E>>(error),
        }
}

/// Whether `result` is what an upload whose image has enough parameter storage returns
/// after `operations`: success after the round trips of every block; the error of the
/// first block round trip that failed, with no later block sent; or, where the address of
/// a block does not fit in 32 bits, the overflow before that block, all earlier ones
/// written.
pub open spec fn upload_outcome<E>(
    product: Aic8800Product,
    base_address: u32,
    image: Seq<u8>,
    capacity: nat,
    timeout: u32,
    operations: Seq<BusOperation>,
    before: Seq<u8>,
    after: Seq<u8>,
    result: Result<(), FirmwareUploadError<E>>,
) -> bool {
    match result {
        Ok(_) => base_address + 1024 * (block_count(image.len()) - 1) <= u32::MAX && upload_exchanges(
            product,
            base_address,
            image,
            capacity,
            timeout,
            operations,
            before,
            after,
            block_count(image.len()),
            None::<AicTransactionError<E>>,
        ),
        Err(FirmwareUploadError::Transaction(error)) => exists|count: nat|
            1 <= count <= block_count(image.len()) && #[trigger] upload_exchanges(
                product,
                base_address,
                image,
                capacity,
                timeout,
                operations,
                before,
                after,
                count,
                Some(error),
            ),
        Err(FirmwareUploadError::AddressOverflow) => exists|count: nat|
            count < block_count(image.len()) && base_address + 1024 * count > u32::MAX && (count == 0
                || base_address + 1024 * (count - 1) <= u32::MAX) && #[trigger] upload_exchanges(
                product,
                base_address,
                image,
                capacity,
                timeout,
                operations,
                before,
                after,
                count,
                None::<AicTransactionError<E>>,
            ),
        Err(_) => false,
    }
}

/// The parameter storage that the first (and largest) block needs.
pub open spec fn first_block_parameter_length(image_length: nat) -> nat {
    if image_length < 1024 {
        8 + image_length
    } else {
        8 + 1024
    }
}

/// A command sent in a stretch of the log is still there once the log grows.
pub proof fn lemma_sent_command_kept(
    product: Aic8800Product,
    start: Seq<crate::sdio::BusOperation>,
    middle: Seq<crate::sdio::BusOperation>,
    end: Seq<crate::sdio::BusOperation>,
    transfer: Seq<u8>,
)
    requires
        log_extends(start, middle),
        log_extends(middle, end),
        sent_command(product, middle.skip(start.len() as int), transfer)
            || sent_command(product, end.skip(middle.len() as int), transfer),
    ensures
        sent_command(product, end.skip(start.len() as int), transfer),
{
    let now = end.skip(start.len() as int);
    let write = crate::sdio::command_fifo_write(product, transfer, true);
    if sent_command(product, middle.skip(start.len() as int), transfer) {
        let before = middle.skip(start.len() as int);
        let i = choose|i: int| 0 <= i < before.len() && #[trigger] before[i] == write;
        assert(now[i] == before[i]);
    } else {
        let added = end.skip(middle.len() as int);
        let i = choose|i: int| 0 <= i < added.len() && #[trigger] added[i] == write;
        assert(now[middle.len() - start.len() + i] == added[i]);
    }
}

/// The block after block `k`, of an image of `length` bytes, starts `1024` bytes later;
/// the last block ends the image.
proof fn lemma_next_block(length: nat, k: nat, offset: nat, end: nat)
    requires
        offset == 1024 * k,
        offset < length,
        end == (if length - offset > 1024 {
            offset + 1024
        } else {
            length
        }),
    ensures
        k < block_count(length),
        end < length ==> k + 1 < block_count(length) && end == 1024 * (k + 1),
        end == length ==> k + 1 == block_count(length),
        end - offset <= first_block_parameter_length(length) - 8,
        k == 0 ==> end - offset == first_block_parameter_length(length) - 8,
{
}

/// Block write round trips of the first blocks, followed by a successful previous one
/// and the round trip of the next block, are the round trips of one block more.
proof fn lemma_exchanges_extend<E>(
    product: Aic8800Product,
    base_address: u32,
    image: Seq<u8>,
    capacity: nat,
    timeout: u32,
    start: Seq<BusOperation>,
    middle: Seq<BusOperation>,
    end: Seq<BusOperation>,
    splits: Seq<int>,
    stored: Seq<Seq<u8>>,
    outcomes: Seq<Result<ConfigResponseView, AicTransactionError<E>>>,
    received: Seq<u8>,
    outcome: Result<ConfigResponseView, AicTransactionError<E>>,
)
    requires
        log_extends(start, middle),
        log_extends(middle, end),
        block_exchanges(
            product,
            base_address,
            image,
            capacity,
            timeout,
            appended(start, middle),
            splits,
            stored,
            outcomes,
        ),
        outcomes.len() == 0 || outcomes.last() is Ok,
        round_trip(
            product,
            DBG_MEM_BLOCK_WRITE_REQUEST,
            DEBUG_TASK_ID,
            DRIVER_TASK_ID,
            block_write_parameter(
                (base_address + 1024 * outcomes.len()) as u32,
                image_block(image, outcomes.len()),
            ),
            DBG_MEM_BLOCK_WRITE_CONFIRM,
            capacity,
            timeout,
            appended(middle, end),
            stored.last(),
            received,
            outcome,
        ),
    ensures
        block_exchanges(
            product,
            base_address,
            image,
            capacity,
            timeout,
            appended(start, end),
            splits.push(end.len() - start.len()),
            stored.push(received),
            outcomes.push(outcome),
        ),
{
    let before = appended(start, middle);
    let now = appended(start, end);
    let n = outcomes.len() as int;
    let splits2 = splits.push(end.len() - start.len());
    let stored2 = stored.push(received);
    let outcomes2 = outcomes.push(outcome);
    assert forall|j: int, k: int| 0 <= j <= k <= outcomes2.len() implies #[trigger] splits2[j]
        <= #[trigger] splits2[k] by {
        if k == n + 1 {
            if j < n + 1 {
                assert(splits[j] <= splits[n]);
            }
        } else {
            assert(splits[j] <= splits[k]);
        }
    }
    assert forall|k: int| 0 <= k < outcomes2.len() implies #[trigger] round_trip(
            product,
            DBG_MEM_BLOCK_WRITE_REQUEST,
            DEBUG_TASK_ID,
            DRIVER_TASK_ID,
            block_write_parameter((base_address + 1024 * k) as u32, image_block(image, k as nat)),
            DBG_MEM_BLOCK_WRITE_CONFIRM,
            capacity,
            timeout,
            now.subrange(splits2[k], splits2[k + 1]),
            stored2[k],
            stored2[k + 1],
            outcomes2[k],
        ) by {
        if k < n {
            assert(splits[0] <= splits[k] && splits[k] <= splits[k + 1] && splits[k + 1] <= splits[n]);
            assert(now.subrange(splits2[k], splits2[k + 1]) =~= before.subrange(splits[k], splits[k + 1]));
            assert(round_trip(
                    product,
                    DBG_MEM_BLOCK_WRITE_REQUEST,
                    DEBUG_TASK_ID,
                    DRIVER_TASK_ID,
                    block_write_parameter((base_address + 1024 * k) as u32, image_block(image, k as nat)),
                    DBG_MEM_BLOCK_WRITE_CONFIRM,
                    capacity,
                    timeout,
                    before.subrange(splits[k], splits[k + 1]),
                    stored[k],
                    stored[k + 1],
                    outcomes[k],
                ));
        } else {
            assert(now.subrange(splits2[k], splits2[k + 1]) =~= appended(middle, end));
        }
    }
    assert forall|k: int| 0 <= k < outcomes2.len() - 1 implies (#[trigger] outcomes2[k]) is Ok by {
        if k < n - 1 {
            assert(outcomes[k] is Ok);
        }
    }
}

/// Encodes one block write and performs it.
fn write_block<I>(
    io: &mut I,
    product: Aic8800Product,
    address: u32,
    block: &[u8],
    parameter_storage: &mut [u8],
    transmit_storage: &mut [u8],
    receive_storage: &mut [u8],
    response_timeout_ms: u32,
) -> (result: Result<(), FirmwareUploadError<<I as AicCommandIo>::Error>>) where
    I: AicCommandIo + AicResponseIo<Error = <I as AicCommandIo>::Error>,

    ensures
        log_extends(old(io).bus_log(), final(io).bus_log()),
        final(parameter_storage)@.len() == old(parameter_storage)@.len(),
        final(transmit_storage)@.len() == old(transmit_storage)@.len(),
        match result {
            Ok(_) => firmware_block_error(block.len(), old(parameter_storage).len()) is None
                && sent_command(
                product,
                final(io).bus_log().skip(old(io).bus_log().len() as int),
                spec_command_transfer(
                    spec_command_header_mode(product),
                    DBG_MEM_BLOCK_WRITE_REQUEST,
                    DEBUG_TASK_ID,
                    DRIVER_TASK_ID,
                    block_write_parameter(address, block@),
                ),
            ),
            Err(FirmwareUploadError::Encode(error)) => firmware_block_error(
                block.len(),
                old(parameter_storage).len(),
            ) == Some(error) && final(io).bus_log() == old(io).bus_log(),
            Err(error) => error is Transaction && firmware_block_error(
                block.len(),
                old(parameter_storage).len(),
            ) is None,
        },
        firmware_block_error(block.len(), old(parameter_storage).len()) is Some
            ==> final(receive_storage)@ == old(receive_storage)@,
        firmware_block_error(block.len(), old(parameter_storage).len()) is None ==> exists|
            outcome: Result<ConfigResponseView, AicTransactionError<<I as AicCommandIo>::Error>>,
        |
            #[trigger] round_trip(
                product,
                DBG_MEM_BLOCK_WRITE_REQUEST,
                DEBUG_TASK_ID,
                DRIVER_TASK_ID,
                block_write_parameter(address, block@),
                DBG_MEM_BLOCK_WRITE_CONFIRM,
                old(transmit_storage)@.len(),
                response_timeout_ms,
                appended(old(io).bus_log(), final(io).bus_log()),
                old(receive_storage)@,
                final(receive_storage)@,
                outcome,
            ) && match outcome {
                Ok(_) => result is Ok,
                Err(error) => result == Err::<(), FirmwareUploadError<<I as AicCommandIo>::Error>>(
                    FirmwareUploadError::Transaction(error),
                ),
            },
{
    let parameter_length = match encode_firmware_block_write_parameters(
        parameter_storage,
        address,
        block,
    ) {
        Ok(length) => length,
        Err(error) => return Err(FirmwareUploadError::Encode(error)),
    };
    let ghost parameter = parameter_storage@.subrange(0, parameter_length as int);
    assert(parameter =~= block_write_parameter(address, block@));
    let exchanged = execute_config_command(
        io,
        product,
        DBG_MEM_BLOCK_WRITE_REQUEST,
        DBG_MEM_BLOCK_WRITE_CONFIRM,
        DEBUG_TASK_ID,
        DRIVER_TASK_ID,
        &parameter_storage[0..parameter_length],
        transmit_storage,
        receive_storage,
        response_timeout_ms,
    );
    let ghost outcome = transaction_view(exchanged);
    let result = match exchanged {
        Ok(_) => Ok(()),
        Err(error) => Err(FirmwareUploadError::Transaction(error)),
    };
    assert(round_trip(
        product,
        DBG_MEM_BLOCK_WRITE_REQUEST,
        DEBUG_TASK_ID,
        DRIVER_TASK_ID,
        block_write_parameter(address, block@),
        DBG_MEM_BLOCK_WRITE_CONFIRM,
        old(transmit_storage)@.len(),
        response_timeout_ms,
        appended(old(io).bus_log(), io.bus_log()),
        old(receive_storage)@,
        receive_storage@,
        outcome,
    ));
    result
}

/// A run of block writes followed by the write of the next block, somewhere in what the
/// log grew by, is a longer run.
proof fn lemma_block_written_next(
    product: Aic8800Product,
    base_address: u32,
    image: Seq<u8>,
    start: Seq<BusOperation>,
    before: Seq<BusOperation>,
    after: Seq<BusOperation>,
    positions: Seq<int>,
)
    requires
        log_extends(start, before),
        log_extends(before, after),
        blocks_written_at(product, base_address, image, before.skip(start.len() as int), positions),
        sent_command(
            product,
            after.skip(before.len() as int),
            upload_block_transfer(product, base_address, image, positions.len()),
        ),
    ensures
        exists|extended: Seq<int>|
            extended.len() == positions.len() + 1 && #[trigger] blocks_written_at(
                product,
                base_address,
                image,
                after.skip(start.len() as int),
                extended,
            ),
{
    let transfer = upload_block_transfer(product, base_address, image, positions.len());
    let segment = after.skip(before.len() as int);
    let write = command_fifo_write(product, transfer, true);
    let i = choose|i: int| 0 <= i < segment.len() && #[trigger] segment[i] == write;
    let previous = before.skip(start.len() as int);
    let now = after.skip(start.len() as int);
    let position = previous.len() + i;
    assert(now[position] == segment[i]);
    let extended = positions.push(position);
    assert forall|k: int| 0 <= k < extended.len() implies 0 <= #[trigger] extended[k] < now.len()
        && now[extended[k]] == command_fifo_write(
        product,
        upload_block_transfer(product, base_address, image, k as nat),
        true,
    ) by {
        if k < positions.len() {
            assert(extended[k] == positions[k]);
            assert(now[positions[k]] == previous[positions[k]]);
        }
    }
    assert(blocks_written_at(product, base_address, image, now, extended));
}

/// Writes `image` to the chip's memory from `base_address` in 1024-byte block writes,
/// stopping at the first failure.
#[verifier::rlimit(40)]
pub fn upload_firmware_image<I>(
    io: &mut I,
    product: Aic8800Product,
    base_address: u32,
    image: &[u8],
    parameter_storage: &mut [u8],
    transmit_storage: &mut [u8],
    receive_storage: &mut [u8],
    response_timeout_ms: u32,
) -> (result: Result<(), FirmwareUploadError<<I as AicCommandIo>::Error>>) where
    I: AicCommandIo + AicResponseIo<Error = <I as AicCommandIo>::Error>,

    ensures
        log_extends(old(io).bus_log(), final(io).bus_log()),
        final(parameter_storage)@.len() == old(parameter_storage)@.len(),
        final(transmit_storage)@.len() == old(transmit_storage)@.len(),
        (result == Err::<(), FirmwareUploadError<<I as AicCommandIo>::Error>>(
            FirmwareUploadError::EmptyImage,
        )) <==> image@.len() == 0,
        image@.len() > 0 && old(parameter_storage)@.len() < first_block_parameter_length(
            image@.len(),
        ) ==> result == Err::<(), FirmwareUploadError<<I as AicCommandIo>::Error>>(
            FirmwareUploadError::Encode(
                FirmwareBlockError::OutputTooShort {
                    required: first_block_parameter_length(image@.len()) as usize,
                    available: old(parameter_storage).len(),
                },
            ),
        ),
        result is Err && !(result->Err_0 is Transaction) && !(result->Err_0 is AddressOverflow)
            ==> final(io).bus_log() == old(io).bus_log(),
        result == Err::<(), FirmwareUploadError<<I as AicCommandIo>::Error>>(
            FirmwareUploadError::AddressOverflow,
        ) ==> base_address + 1024 * (block_count(image@.len()) - 1) > u32::MAX,
        result is Ok ==> base_address + 1024 * (block_count(image@.len()) - 1) <= u32::MAX,
        result is Ok ==> forall|k: nat|
            k < block_count(image@.len()) ==> sent_command(
                product,
                final(io).bus_log().skip(old(io).bus_log().len() as int),
                #[trigger] upload_block_transfer(product, base_address, image@, k),
            ),
        result is Ok ==> exists|positions: Seq<int>|
            positions.len() == block_count(image@.len()) && #[trigger] blocks_written_at(
                product,
                base_address,
                image@,
                final(io).bus_log().skip(old(io).bus_log().len() as int),
                positions,
            ),
        image@.len() > 0 && old(parameter_storage)@.len() >= first_block_parameter_length(
            image@.len(),
        ) ==> upload_outcome(
            product,
            base_address,
            image@,
            old(transmit_storage)@.len(),
            response_timeout_ms,
            appended(old(io).bus_log(), final(io).bus_log()),
            old(receive_storage)@,
            final(receive_storage)@,
            result,
        ),
{
    if image.len() == 0 {
        return Err(FirmwareUploadError::EmptyImage);
    }
    let ghost start = io.bus_log();
    let ghost blocks = block_count(image@.len());
    let mut offset: usize = 0;
    let mut block_index: usize = 0;
    let ghost mut positions: Seq<int> = seq![];
    let ghost mut splits: Seq<int> = seq![0];
    let ghost mut stored: Seq<Seq<u8>> = seq![receive_storage@];
    let ghost mut outcomes: Seq<Result<ConfigResponseView, AicTransactionError<<I as AicCommandIo>::Error>>> = seq![];
    assert(appended(start, io.bus_log()).len() == 0);
    while offset < image.len()
        invariant
            start == old(io).bus_log(),
            image@.len() > 0,
            image@.len() == image.len(),
            blocks == block_count(image@.len()),
            offset <= image@.len(),
            offset < image@.len() ==> block_index < blocks && offset == 1024 * block_index,
            offset == image@.len() ==> block_index == blocks,
            block_index > 0 ==> old(parameter_storage)@.len() >= first_block_parameter_length(
                image@.len(),
            ),
            block_index > 0 ==> base_address + 1024 * (block_index - 1) <= u32::MAX,
            parameter_storage@.len() == old(parameter_storage)@.len(),
            transmit_storage@.len() == old(transmit_storage)@.len(),
            log_extends(start, io.bus_log()),
            block_index == 0 ==> io.bus_log() == start,
            forall|k: nat|
                k < block_index ==> sent_command(
                    product,
                    io.bus_log().skip(start.len() as int),
                    #[trigger] upload_block_transfer(product, base_address, image@, k),
                ),
            positions.len() == block_index,
            blocks_written_at(
                product,
                base_address,
                image@,
                io.bus_log().skip(start.len() as int),
                positions,
            ),
            block_exchanges(
                product,
                base_address,
                image@,
                old(transmit_storage)@.len(),
                response_timeout_ms,
                appended(start, io.bus_log()),
                splits,
                stored,
                outcomes,
            ),
            outcomes.len() == block_index,
            stored[0] == old(receive_storage)@,
            stored.last() == receive_storage@,
            block_index == 0 || outcomes.last() is Ok,
        decreases image@.len() - offset,
    {
        let ghost block_start_log = io.bus_log();
        if offset > 0xffff_ffff || base_address as usize > 0xffff_ffff - offset {
            assert(base_address + 1024 * (blocks - 1) > u32::MAX) by (nonlinear_arith)
                requires
                    block_index < blocks,
                    offset == 1024 * block_index,
                    offset > 0xffff_ffff || base_address > 0xffff_ffff - offset,
            ;
            assert(base_address + 1024 * block_index > u32::MAX);
            assert(upload_exchanges(
                product,
                base_address,
                image@,
                old(transmit_storage)@.len(),
                response_timeout_ms,
                appended(start, io.bus_log()),
                old(receive_storage)@,
                receive_storage@,
                block_index as nat,
                None::<AicTransactionError<<I as AicCommandIo>::Error>>,
            ));
            return Err(FirmwareUploadError::AddressOverflow);
        }
        let address = base_address + offset as u32;
        let end = if image.len() - offset > MAX_FIRMWARE_BLOCK_SIZE {
            offset + MAX_FIRMWARE_BLOCK_SIZE
        } else {
            image.len()
        };
        proof {
            lemma_next_block(image@.len(), block_index as nat, offset as nat, end as nat);
        }
        let block = &image[offset..end];
        assert(block@ == image_block(image@, block_index as nat));
        let ghost before = io.bus_log();
        let ghost received_before = receive_storage@;
        let written = write_block(
            io,
            product,
            address,
            block,
            parameter_storage,
            transmit_storage,
            receive_storage,
            response_timeout_ms,
        );
        proof {
            if firmware_block_error(block.len(), parameter_storage.len()) is None {
                let outcome = choose|
                    outcome: Result<ConfigResponseView, AicTransactionError<<I as AicCommandIo>::Error>>,
                | #[trigger]
                    round_trip(
                        product,
                        DBG_MEM_BLOCK_WRITE_REQUEST,
                        DEBUG_TASK_ID,
                        DRIVER_TASK_ID,
                        block_write_parameter(address, block@),
                        DBG_MEM_BLOCK_WRITE_CONFIRM,
                        old(transmit_storage)@.len(),
                        response_timeout_ms,
                        appended(before, io.bus_log()),
                        received_before,
                        receive_storage@,
                        outcome,
                    ) && match outcome {
                        Ok(_) => written is Ok,
                        Err(error) => written == Err::<(), FirmwareUploadError<<I as AicCommandIo>::Error>>(
                            FirmwareUploadError::Transaction(error),
                        ),
                    };
                assert(address == (base_address + 1024 * outcomes.len()) as u32);
                lemma_exchanges_extend(
                    product,
                    base_address,
                    image@,
                    old(transmit_storage)@.len(),
                    response_timeout_ms,
                    start,
                    before,
                    io.bus_log(),
                    splits,
                    stored,
                    outcomes,
                    receive_storage@,
                    outcome,
                );
                splits = splits.push(io.bus_log().len() - start.len());
                stored = stored.push(receive_storage@);
                outcomes = outcomes.push(outcome);
            }
        }
        match written {
            Ok(()) => {},
            Err(error) => {
                assert(error is Encode ==> block_index == 0);
                proof {
                    if error is Transaction {
                        assert(upload_exchanges(
                            product,
                            base_address,
                            image@,
                            old(transmit_storage)@.len(),
                            response_timeout_ms,
                            appended(start, io.bus_log()),
                            old(receive_storage)@,
                            receive_storage@,
                            (block_index + 1) as nat,
                            Some(error->Transaction_0),
                        ));
                    }
                }
                return Err(error);
            },
        }
        proof {
            lemma_block_written_next(
                product,
                base_address,
                image@,
                start,
                before,
                io.bus_log(),
                positions,
            );
            let now = io.bus_log().skip(start.len() as int);
            positions = choose|extended: Seq<int>|
                extended.len() == positions.len() + 1 && #[trigger] blocks_written_at(
                    product,
                    base_address,
                    image@,
                    now,
                    extended,
                );
            assert forall|k: nat| k < block_index + 1 implies sent_command(
                product,
                io.bus_log().skip(start.len() as int),
                #[trigger] upload_block_transfer(product, base_address, image@, k),
            ) by {
                lemma_sent_command_kept(
                    product,
                    start,
                    before,
                    io.bus_log(),
                    upload_block_transfer(product, base_address, image@, k),
                );
            }
        }
        offset = end;
        block_index = block_index + 1;
    }
    assert(upload_exchanges(
        product,
        base_address,
        image@,
        old(transmit_storage)@.len(),
        response_timeout_ms,
        appended(start, io.bus_log()),
        old(receive_storage)@,
        receive_storage@,
        block_count(image@.len()),
        None::<AicTransactionError<<I as AicCommandIo>::Error>>,
    ));
    Ok(())
}

} // verus!
