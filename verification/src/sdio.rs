//! The SDIO bus interface the driver is written against, the command-path flow
//! control, and the per-product function initialisation sequence.
use vstd::prelude::*;

use crate::device::{Aic8800Product, SDIO_BLOCK_SIZE, is_d80_family, spec_registers};

verus! {

/// One operation on the SDIO bus, as recorded in a bus log: what was asked of the bus
/// and what it answered.
pub enum BusOperation {
    SetBlockSize { function: u8, size: u16, succeeded: bool },
    EnableFunction { function: u8, succeeded: bool },
    WriteRegister { function: u8, address: u32, value: u8, succeeded: bool },
    ReadRegister { function: u8, address: u32, value: Option<u8> },
    WriteFifo { function: u8, address: u32, data: Seq<u8>, succeeded: bool },
    ReadFifo { function: u8, address: u32, length: nat, data: Option<Seq<u8>> },
    DelayUs { microseconds: u32 },
    DelayMs { milliseconds: u32 },
}

/// The history of bus operations performed through a device handle.
///
/// Every bus access trait of the driver records into this one log, so that the order of
/// operations performed through the different traits is kept. The log is a model with no
/// run-time existence: every implementation keeps it, in the sense that each access method
/// appends to it exactly the operation it performed.
pub trait AicBusLog {
    spec fn bus_log(&self) -> Seq<BusOperation>;
}

/// The bus access used while bringing the SDIO functions up.
///
/// Every method adds the one operation it performed, with its answer, to the bus log.
/// Nothing is assumed about the answers themselves.
pub trait AicSdioIo: AicBusLog {
    type Error;

    fn set_block_size(&mut self, function: u8, size: u16) -> (result: Result<(), Self::Error>)
        ensures
            final(self).bus_log() == old(self).bus_log().push(
                BusOperation::SetBlockSize { function, size, succeeded: result is Ok },
            ),
    ;

    fn enable_function(&mut self, function: u8) -> (result: Result<(), Self::Error>)
        ensures
            final(self).bus_log() == old(self).bus_log().push(
                BusOperation::EnableFunction { function, succeeded: result is Ok },
            ),
    ;

    fn write_register(&mut self, function: u8, address: u32, value: u8) -> (result: Result<
        (),
        Self::Error,
    >)
        ensures
            final(self).bus_log() == old(self).bus_log().push(
                BusOperation::WriteRegister { function, address, value, succeeded: result is Ok },
            ),
    ;

    fn read_register(&mut self, function: u8, address: u32) -> (result: Result<u8, Self::Error>)
        ensures
            final(self).bus_log() == old(self).bus_log().push(
                BusOperation::ReadRegister {
                    function,
                    address,
                    value: match result {
                        Ok(v) => Some(v),
                        Err(_) => None,
                    },
                },
            ),
    ;

    fn delay_us(&mut self, microseconds: u32)
        ensures
            final(self).bus_log() == old(self).bus_log().push(
                BusOperation::DelayUs { microseconds },
            ),
    ;

    fn delay_ms(&mut self, milliseconds: u32)
        ensures
            final(self).bus_log() == old(self).bus_log().push(
                BusOperation::DelayMs { milliseconds },
            ),
    ;
}

/// The bus access used to submit configuration commands.
///
/// Every method adds the one operation it performed, with its answer, to the bus log.
pub trait AicCommandIo: AicBusLog {
    type Error;

    fn read_register(&mut self, function: u8, address: u32) -> (result: Result<u8, Self::Error>)
        ensures
            final(self).bus_log() == old(self).bus_log().push(
                BusOperation::ReadRegister {
                    function,
                    address,
                    value: match result {
                        Ok(v) => Some(v),
                        Err(_) => None,
                    },
                },
            ),
    ;

    fn write_fifo(&mut self, function: u8, address: u32, data: &mut [u8]) -> (result: Result<
        (),
        Self::Error,
    >)
        ensures
            final(self).bus_log() == old(self).bus_log().push(
                BusOperation::WriteFifo {
                    function,
                    address,
                    data: old(data)@,
                    succeeded: result is Ok,
                },
            ),
            final(data)@.len() == old(data)@.len(),
    ;

    fn delay_us(&mut self, microseconds: u32)
        ensures
            final(self).bus_log() == old(self).bus_log().push(
                BusOperation::DelayUs { microseconds },
            ),
    ;

    fn delay_ms(&mut self, milliseconds: u32)
        ensures
            final(self).bus_log() == old(self).bus_log().push(
                BusOperation::DelayMs { milliseconds },
            ),
    ;
}

/// The error type of a device handle's command access.
pub type CommandIoError<I> = <I as AicCommandIo>::Error;

#[derive(Clone, Copy, Debug, Eq, PartialEq)]
pub enum AicCommandError<E> {
    Io(E),
    InvalidTransferLength { length: usize },
    InsufficientFlowControl { buffer_count: u8, transfer_length: usize },
}

// ---------------------------------------------------------------------------
// Command flow control.
// ---------------------------------------------------------------------------

/// Number of buffers of this size that one flow-control credit stands for.
pub const FLOW_CONTROL_BUFFER_SIZE: usize = 1536;

/// The flow-control register read of a product, with the value it answered.
pub open spec fn flow_read(product: Aic8800Product, value: Option<u8>) -> BusOperation {
    BusOperation::ReadRegister {
        function: 1,
        address: spec_registers(product).flow_control as u32,
        value,
    }
}

/// The credit count in a raw flow-control value: classic chips use bit 7 for something
/// else and ignore it.
pub open spec fn flow_value(product: Aic8800Product, raw: u8) -> u8 {
    if is_d80_family(product) {
        raw
    } else {
        raw & 0x7fu8
    }
}

/// The wait after the `count`-th empty read: 200 µs up to the 29th, 1 ms up to the
/// 39th, then 10 ms.
pub open spec fn flow_poll_delay(count: nat) -> BusOperation {
    if count < 30 {
        BusOperation::DelayUs { microseconds: 200 }
    } else if count < 40 {
        BusOperation::DelayMs { milliseconds: 1 }
    } else {
        BusOperation::DelayMs { milliseconds: 10 }
    }
}

/// Whether `after` is `before` with operations appended.
pub open spec fn log_extends(before: Seq<BusOperation>, after: Seq<BusOperation>) -> bool {
    &&& before.len() <= after.len()
    &&& forall|i: int| 0 <= i < before.len() ==> #[trigger] after[i] == before[i]
}

/// What was appended to `before` to give `after`.
pub open spec fn appended(before: Seq<BusOperation>, after: Seq<BusOperation>) -> Seq<BusOperation> {
    after.skip(before.len() as int)
}

/// The operations of a poll whose successful reads answered `values`, each read but the
/// last followed by its wait.
pub open spec fn flow_poll_operations(product: Aic8800Product, values: Seq<u8>) -> Seq<
    BusOperation,
>
    decreases values.len(),
{
    if values.len() == 0 {
        seq![]
    } else if values.len() == 1 {
        seq![flow_read(product, Some(values[0]))]
    } else {
        flow_poll_operations(product, values.drop_last()) + seq![
            flow_poll_delay((values.len() - 1) as nat),
            flow_read(product, Some(values.last())),
        ]
    }
}

/// The operations of a poll whose reads answered `values` and whose next read failed.
pub open spec fn flow_poll_failed_operations(product: Aic8800Product, values: Seq<u8>) -> Seq<
    BusOperation,
> {
    if values.len() == 0 {
        seq![flow_read(product, None)]
    } else {
        flow_poll_operations(product, values) + seq![
            flow_poll_delay(values.len()),
            flow_read(product, None),
        ]
    }
}

/// Whether all but the last of `values` carry no credit.
pub open spec fn empty_before_last(product: Aic8800Product, values: Seq<u8>) -> bool {
    forall|i: int| 0 <= i < values.len() - 1 ==> flow_value(product, #[trigger] values[i]) == 0
}

/// Whether a flow-control poll that performed `operations` answered `count`: the reads
/// stop at the first credit, or after 51 empty reads with no credit.
pub open spec fn flow_poll_answered(
    product: Aic8800Product,
    operations: Seq<BusOperation>,
    count: u8,
) -> bool {
    exists|values: Seq<u8>|
        #![trigger flow_poll_operations(product, values)]
        {
            &&& 1 <= values.len() <= 51
            &&& empty_before_last(product, values)
            &&& operations == flow_poll_operations(product, values)
            &&& count == flow_value(product, values.last())
            &&& count == 0 ==> values.len() == 51
        }
}

/// Whether `operations` is a run of complete flow-control polls that answered `counts`,
/// in order.
pub open spec fn polls_answered(
    product: Aic8800Product,
    operations: Seq<BusOperation>,
    counts: Seq<u8>,
) -> bool
    decreases counts.len(),
{
    if counts.len() == 0 {
        operations.len() == 0
    } else {
        exists|split: int|
            #![trigger operations.take(split)]
            {
                &&& 0 <= split <= operations.len()
                &&& polls_answered(product, operations.take(split), counts.drop_last())
                &&& flow_poll_answered(product, operations.skip(split), counts.last())
            }
    }
}

/// Whether a poll that answered `count` leaves too little room for a transfer of `length`
/// bytes to go ahead, so that the sender polls again (while it still may).
pub open spec fn asks_for_another_poll(count: u8, length: nat) -> bool {
    count == 0 || length > count * FLOW_CONTROL_BUFFER_SIZE
}

/// Whether the polls that answered `counts` are those a sender of `length` bytes makes:
/// one poll, then another after each answer that leaves too little room, ten more at most.
pub open spec fn sender_polls(counts: Seq<u8>, length: nat) -> bool {
    &&& 1 <= counts.len() <= 11
    &&& forall|i: int| 0 <= i < counts.len() - 1 ==> asks_for_another_poll(#[trigger] counts[i], length)
    &&& counts.len() < 11 ==> !asks_for_another_poll(counts.last(), length)
}

/// A run of polls extended by one more poll.
proof fn lemma_polls_answered_push(
    product: Aic8800Product,
    before: Seq<BusOperation>,
    counts: Seq<u8>,
    poll: Seq<BusOperation>,
    count: u8,
)
    requires
        polls_answered(product, before, counts),
        flow_poll_answered(product, poll, count),
    ensures
        polls_answered(product, before + poll, counts.push(count)),
{
    let whole = before + poll;
    let next = counts.push(count);
    assert(next.drop_last() =~= counts);
    assert(whole.take(before.len() as int) =~= before);
    assert(whole.skip(before.len() as int) =~= poll);
}

/// What a flow-control poll that performed `operations` may have returned: the reads stop
/// at the first credit, or after 51 empty reads with no credit.
pub open spec fn flow_poll_outcome<E>(
    product: Aic8800Product,
    operations: Seq<BusOperation>,
    result: Result<u8, AicCommandError<E>>,
) -> bool {
    match result {
        Ok(count) => flow_poll_answered(product, operations, count),
        Err(error) => {
            &&& error is Io
            &&& exists|values: Seq<u8>|
                #![trigger flow_poll_failed_operations(product, values)]
                {
                    &&& values.len() <= 50
                    &&& forall|i: int|
                        0 <= i < values.len() ==> flow_value(product, #[trigger] values[i]) == 0
                    &&& operations == flow_poll_failed_operations(product, values)
                }
        },
    }
}

/// Whether an operation is part of flow-control polling: a read of the flow-control
/// register or one of the waits between reads.
pub open spec fn is_flow_poll_operation(product: Aic8800Product, operation: BusOperation) -> bool {
    match operation {
        BusOperation::ReadRegister { function, address, value } => function == 1 && address
            == spec_registers(product).flow_control as u32,
        BusOperation::DelayUs { microseconds } => microseconds == 200,
        BusOperation::DelayMs { milliseconds } => milliseconds == 1 || milliseconds == 10,
        _ => false,
    }
}

/// Whether every operation of `operations` is part of flow-control polling.
pub open spec fn all_flow_poll(product: Aic8800Product, operations: Seq<BusOperation>) -> bool {
    forall|i: int|
        0 <= i < operations.len() ==> is_flow_poll_operation(product, #[trigger] operations[i])
}

/// Polling leaves nothing in the log but flow-control reads and waits.
pub proof fn lemma_flow_poll_operations_are_polling(product: Aic8800Product, values: Seq<u8>)
    ensures
        all_flow_poll(product, flow_poll_operations(product, values)),
        all_flow_poll(product, flow_poll_failed_operations(product, values)),
    decreases values.len(),
{
    if values.len() > 1 {
        lemma_flow_poll_operations_are_polling(product, values.drop_last());
        let prefix = flow_poll_operations(product, values.drop_last());
        let whole = flow_poll_operations(product, values);
        assert forall|i: int| 0 <= i < whole.len() implies is_flow_poll_operation(
            product,
            #[trigger] whole[i],
        ) by {
            if i < prefix.len() {
                assert(whole[i] == prefix[i]);
            }
        }
    }
    let whole = flow_poll_operations(product, values);
    let failed = flow_poll_failed_operations(product, values);
    assert forall|i: int| 0 <= i < failed.len() implies is_flow_poll_operation(
        product,
        #[trigger] failed[i],
    ) by {
        if values.len() > 0 && i < whole.len() {
            assert(failed[i] == whole[i]);
        }
    }
}

/// Reads the command flow-control register until it reports free buffers, waiting
/// between reads on the vendor schedule, and returns the number of free buffers, or zero
/// after 51 empty reads.
pub fn poll_command_flow_control<I: AicCommandIo>(io: &mut I, product: Aic8800Product) -> (result:
    Result<u8, AicCommandError<I::Error>>)
    ensures
        log_extends(old(io).bus_log(), final(io).bus_log()),
        flow_poll_outcome(
            product,
            final(io).bus_log().skip(old(io).bus_log().len() as int),
            result,
        ),
{
    let ghost start = io.bus_log();
    let ghost mut values: Seq<u8> = seq![];
    let address = product.registers().flow_control as u32;
    let mut count: u32 = 0;
    loop
        invariant
            start == old(io).bus_log(),
            count <= 50,
            values.len() == count,
            log_extends(start, io.bus_log()),
            start.len() <= io.bus_log().len(),
            address == spec_registers(product).flow_control as u32,
            forall|i: int| 0 <= i < values.len() ==> flow_value(product, #[trigger] values[i]) == 0,
            count == 0 ==> io.bus_log() == start,
            count > 0 ==> io.bus_log() == start + flow_poll_operations(product, values) + seq![
                flow_poll_delay(count as nat),
            ],
        decreases 51 - count,
    {
        let ghost before = io.bus_log();
        let read = AicCommandIo::read_register(io, 1, address);
        if read.is_err() {
            proof {
                assert(log_extends(start, io.bus_log()));
                let ops = io.bus_log().skip(start.len() as int);
                assert(ops =~= flow_poll_failed_operations(product, values));
            }
            return match read {
                Err(error) => Err(AicCommandError::Io(error)),
                Ok(_) => Ok(0),
            };
        }
        let raw = match read {
            Ok(raw) => raw,
            Err(_) => 0,
        };
        let value = match product {
            Aic8800Product::Aic8801 | Aic8800Product::Aic8800Dc => raw & 0x7f,
            _ => raw,
        };
        proof {
            let next = values.push(raw);
            assert(next.drop_last() =~= values);
            if count == 0 {
                assert(flow_poll_operations(product, next) =~= seq![flow_read(product, Some(raw))]);
                assert(io.bus_log() =~= start + flow_poll_operations(product, next));
            } else {
                assert(io.bus_log() =~= start + flow_poll_operations(product, next));
            }
            values = next;
        }
        if value != 0 {
            proof {
                let ops = io.bus_log().skip(start.len() as int);
                assert(ops =~= flow_poll_operations(product, values));
                assert(empty_before_last(product, values));
            }
            return Ok(value);
        }
        if count >= 50 {
            proof {
                let ops = io.bus_log().skip(start.len() as int);
                assert(ops =~= flow_poll_operations(product, values));
                assert(empty_before_last(product, values));
            }
            return Ok(0);
        }
        count = count + 1;
        if count < 30 {
            AicCommandIo::delay_us(io, 200);
        } else if count < 40 {
            AicCommandIo::delay_ms(io, 1);
        } else {
            AicCommandIo::delay_ms(io, 10);
        }
        assert(io.bus_log() =~= start + flow_poll_operations(product, values) + seq![
            flow_poll_delay(count as nat),
        ]);
    }
}

/// The FIFO write of a command transfer of a product.
pub open spec fn command_fifo_write(
    product: Aic8800Product,
    data: Seq<u8>,
    succeeded: bool,
) -> BusOperation {
    BusOperation::WriteFifo {
        function: if product is Aic8800Dc {
            2
        } else {
            1
        },
        address: spec_registers(product).write_fifo as u32,
        data,
        succeeded,
    }
}

/// Whether a transfer length is a positive whole number of SDIO blocks.
pub open spec fn is_block_transfer_length(length: nat) -> bool {
    length != 0 && length % 512 == 0
}

/// What a send of the command transfer `transfer` that performed `operations` may have
/// returned, and what it did: nothing for a transfer that is not whole blocks; one FIFO
/// write through function two on the AIC8800DC; otherwise the flow-control polls a sender
/// makes, then the FIFO write when the transfer fits.
pub open spec fn send_outcome<E>(
    product: Aic8800Product,
    transfer: Seq<u8>,
    operations: Seq<BusOperation>,
    result: Result<(), AicCommandError<E>>,
) -> bool {
    &&& !is_block_transfer_length(transfer.len()) <==> result
        == Err::<(), AicCommandError<E>>(
        AicCommandError::InvalidTransferLength { length: transfer.len() as usize },
    )
    &&& !is_block_transfer_length(transfer.len()) ==> operations.len() == 0
    &&& is_block_transfer_length(transfer.len()) && product is Aic8800Dc ==> {
        &&& operations == seq![
            command_fifo_write(product, transfer, result is Ok),
        ]
        &&& result is Err ==> result->Err_0 is Io
    }
    &&& is_block_transfer_length(transfer.len()) && !(product is Aic8800Dc) ==> {
        &&& result is Ok ==> operations.len() >= 1 && all_flow_poll(
            product,
            operations.drop_last(),
        ) && operations.last() == command_fifo_write(product, transfer, true)
        &&& result is Ok ==> exists|counts: Seq<u8>|
            #![trigger polls_answered(product, operations.drop_last(), counts)]
            {
                &&& polls_answered(product, operations.drop_last(), counts)
                &&& sender_polls(counts, transfer.len())
                &&& counts.last() != 0
                &&& transfer.len() < counts.last() * FLOW_CONTROL_BUFFER_SIZE
            }
        &&& result matches Err(AicCommandError::InsufficientFlowControl {
            buffer_count,
            transfer_length,
        }) ==> all_flow_poll(product, operations) && transfer_length == transfer.len()
            && (buffer_count == 0 || transfer_length >= buffer_count
            * FLOW_CONTROL_BUFFER_SIZE) && exists|counts: Seq<u8>|
            #![trigger polls_answered(product, operations, counts)]
            {
                &&& polls_answered(product, operations, counts)
                &&& sender_polls(counts, transfer.len())
                &&& counts.last() == buffer_count
            }
        &&& result matches Err(AicCommandError::Io(_)) ==> all_flow_poll(product, operations)
            || (operations.len() >= 1 && all_flow_poll(product, operations.drop_last())
            && operations.last() == command_fifo_write(product, transfer, false))
    }
}

/// Writes a padded command transfer to the command FIFO. The AIC8800DC writes through
/// function two at once; the other products first poll flow control, up to ten more
/// times while there is no credit or the transfer needs more buffers than reported, and
/// give up when the transfer does not fit strictly below the reported capacity.
pub fn send_command_transfer<I: AicCommandIo>(
    io: &mut I,
    product: Aic8800Product,
    transfer: &mut [u8],
) -> (result: Result<(), AicCommandError<I::Error>>)
    ensures
        log_extends(old(io).bus_log(), final(io).bus_log()),
        final(transfer)@.len() == old(transfer)@.len(),
        send_outcome(
            product,
            old(transfer)@,
            final(io).bus_log().skip(old(io).bus_log().len() as int),
            result,
        ),
{
    let ghost start = io.bus_log();
    let length = transfer.len();
    if length == 0 || length % SDIO_BLOCK_SIZE != 0 {
        assert(io.bus_log().skip(start.len() as int) =~= seq![]);
        return Err(AicCommandError::InvalidTransferLength { length });
    }
    let registers = product.registers();
    match product {
        Aic8800Product::Aic8800Dc => {
            let written = io.write_fifo(2, registers.write_fifo as u32, transfer);
            assert(io.bus_log().skip(start.len() as int) =~= seq![
                command_fifo_write(product, old(transfer)@, written is Ok),
            ]);
            match written {
                Ok(()) => Ok(()),
                Err(error) => Err(AicCommandError::Io(error)),
            }
        },
        _ => {
            let ghost before = io.bus_log();
            let polled = poll_command_flow_control(io, product);
            proof {
                lemma_polled_operations(product, io.bus_log().skip(before.len() as int), polled);
                assert(io.bus_log().skip(start.len() as int) =~= io.bus_log().skip(
                    before.len() as int,
                ));
            }
            let mut buffer_count = match polled {
                Ok(count) => count,
                Err(error) => return Err(error),
            };
            let ghost mut counts: Seq<u8> = seq![buffer_count];
            proof {
                let polls = io.bus_log().skip(start.len() as int);
                assert(counts.drop_last() =~= seq![]);
                assert(polls.take(0) =~= seq![]);
                assert(polls.skip(0) =~= polls);
                assert(polls_answered(product, polls.take(0), counts.drop_last()));
                assert(flow_poll_answered(product, polls.skip(0), counts.last()));
                assert(polls_answered(product, polls, counts));
            }
            let mut retry: u8 = 0;
            while (buffer_count == 0 || length > buffer_count as usize * FLOW_CONTROL_BUFFER_SIZE)
                && retry < 10
                invariant
                    start == old(io).bus_log(),
                    retry <= 10,
                    length == old(transfer)@.len(),
                    transfer@ == old(transfer)@,
                    is_block_transfer_length(length as nat),
                    !(product is Aic8800Dc),
                    log_extends(start, io.bus_log()),
                    all_flow_poll(product, io.bus_log().skip(start.len() as int)),
                    counts.len() == retry + 1,
                    counts.last() == buffer_count,
                    polls_answered(product, io.bus_log().skip(start.len() as int), counts),
                    forall|i: int|
                        0 <= i < counts.len() - 1 ==> asks_for_another_poll(
                            #[trigger] counts[i],
                            length as nat,
                        ),
                decreases 10 - retry,
            {
                retry = retry + 1;
                let ghost before = io.bus_log();
                let polled = poll_command_flow_control(io, product);
                proof {
                    lemma_polled_operations(
                        product,
                        io.bus_log().skip(before.len() as int),
                        polled,
                    );
                    lemma_all_flow_poll_concat(
                        product,
                        before.skip(start.len() as int),
                        io.bus_log().skip(before.len() as int),
                    );
                    assert(io.bus_log().skip(start.len() as int) =~= before.skip(
                        start.len() as int,
                    ) + io.bus_log().skip(before.len() as int));
                }
                buffer_count = match polled {
                    Ok(count) => count,
                    Err(error) => return Err(error),
                };
                proof {
                    let previous = counts;
                    assert(asks_for_another_poll(previous.last(), length as nat));
                    lemma_polls_answered_push(
                        product,
                        before.skip(start.len() as int),
                        previous,
                        io.bus_log().skip(before.len() as int),
                        buffer_count,
                    );
                    counts = previous.push(buffer_count);
                    assert forall|i: int| 0 <= i < counts.len() - 1 implies asks_for_another_poll(
                        #[trigger] counts[i],
                        length as nat,
                    ) by {
                        if i < previous.len() - 1 {
                            assert(counts[i] == previous[i]);
                        } else {
                            assert(counts[i] == previous.last());
                        }
                    }
                }
            }
            assert(sender_polls(counts, length as nat));
            if buffer_count == 0 || length >= buffer_count as usize * FLOW_CONTROL_BUFFER_SIZE {
                return Err(
                    AicCommandError::InsufficientFlowControl { buffer_count, transfer_length: length },
                );
            }
            let ghost before = io.bus_log();
            let written = io.write_fifo(1, registers.write_fifo as u32, transfer);
            proof {
                let operations = io.bus_log().skip(start.len() as int);
                assert(operations.drop_last() =~= before.skip(start.len() as int));
                assert(polls_answered(product, operations.drop_last(), counts));
            }
            match written {
                Ok(()) => Ok(()),
                Err(error) => Err(AicCommandError::Io(error)),
            }
        },
    }
}

/// Whatever a poll returned, the operations it performed are polling only.
proof fn lemma_polled_operations<E>(
    product: Aic8800Product,
    operations: Seq<BusOperation>,
    result: Result<u8, AicCommandError<E>>,
)
    requires
        flow_poll_outcome(product, operations, result),
    ensures
        all_flow_poll(product, operations),
        result is Err ==> result->Err_0 is Io,
{
    match result {
        Ok(count) => {
            let values = choose|values: Seq<u8>|
                {
                    &&& 1 <= values.len() <= 51
                    &&& empty_before_last(product, values)
                    &&& operations == flow_poll_operations(product, values)
                    &&& count == flow_value(product, values.last())
                    &&& count == 0 ==> values.len() == 51
                };
            lemma_flow_poll_operations_are_polling(product, values);
        },
        Err(_) => {
            let values = choose|values: Seq<u8>|
                {
                    &&& values.len() <= 50
                    &&& forall|i: int|
                        0 <= i < values.len() ==> flow_value(product, #[trigger] values[i]) == 0
                    &&& operations == flow_poll_failed_operations(product, values)
                };
            lemma_flow_poll_operations_are_polling(product, values);
        },
    }
}

proof fn lemma_all_flow_poll_concat(
    product: Aic8800Product,
    a: Seq<BusOperation>,
    b: Seq<BusOperation>,
)
    requires
        all_flow_poll(product, a),
        all_flow_poll(product, b),
    ensures
        all_flow_poll(product, a + b),
{
    assert forall|i: int| 0 <= i < (a + b).len() implies is_flow_poll_operation(
        product,
        #[trigger] (a + b)[i],
    ) by {
        if i < a.len() {
            assert((a + b)[i] == a[i]);
        } else {
            assert((a + b)[i] == b[i - a.len()]);
        }
    }
}


// ---------------------------------------------------------------------------
// Function initialisation.
// ---------------------------------------------------------------------------

#[derive(Clone, Copy, Debug, Eq, PartialEq)]
pub enum AicSdioInitError<E> {
    Io(E),
    MissingClassicRegister,
}

/// The same operation, answered with a failure.
pub open spec fn failed_operation(operation: BusOperation) -> BusOperation {
    match operation {
        BusOperation::SetBlockSize { function, size, .. } => BusOperation::SetBlockSize {
            function,
            size,
            succeeded: false,
        },
        BusOperation::EnableFunction { function, .. } => BusOperation::EnableFunction {
            function,
            succeeded: false,
        },
        BusOperation::WriteRegister { function, address, value, .. } =>
            BusOperation::WriteRegister { function, address, value, succeeded: false },
        _ => operation,
    }
}

/// Whether an operation can be answered with a failure.
pub open spec fn can_fail(operation: BusOperation) -> bool {
    operation is SetBlockSize || operation is EnableFunction || operation is WriteRegister
}

/// Whether `operations` is what carrying out `plan` up to its first failure performs:
/// all of `plan` when every step succeeded, else the steps before the failing one and
/// that step answered with a failure.
pub open spec fn plan_executed(
    plan: Seq<BusOperation>,
    operations: Seq<BusOperation>,
    succeeded: bool,
) -> bool {
    if succeeded {
        operations == plan
    } else {
        &&& 1 <= operations.len() <= plan.len()
        &&& operations.drop_last() == plan.take(operations.len() - 1)
        &&& can_fail(plan[operations.len() - 1])
        &&& operations.last() == failed_operation(plan[operations.len() - 1])
    }
}

pub open spec fn set_block(function: u8) -> BusOperation {
    BusOperation::SetBlockSize { function, size: 512, succeeded: true }
}

pub open spec fn enable(function: u8) -> BusOperation {
    BusOperation::EnableFunction { function, succeeded: true }
}

pub open spec fn write(function: u8, address: u32, value: u8) -> BusOperation {
    BusOperation::WriteRegister { function, address, value, succeeded: true }
}

/// The vendor bring-up sequence of a product: block size and enable of function one;
/// for classic chips a 100 µs wait, function two on the AIC8800DC, register-block and
/// byte-mode enables; for D80 chips the function-zero and byte-mode writes; then the
/// interrupt enables.
pub open spec fn sdio_init_plan(product: Aic8800Product) -> Seq<BusOperation> {
    match product {
        Aic8800Product::Aic8801 => seq![
            set_block(1),
            enable(1),
            BusOperation::DelayUs { microseconds: 100 },
            write(1, 0x0b, 0x01),
            write(1, 0x11, 0x01),
            write(1, 0x04, 0x07),
        ],
        Aic8800Product::Aic8800Dc => seq![
            set_block(1),
            enable(1),
            BusOperation::DelayUs { microseconds: 100 },
            set_block(2),
            enable(2),
            write(2, 0x0b, 0x01),
            write(2, 0x11, 0x01),
            write(1, 0x0b, 0x01),
            write(1, 0x11, 0x01),
            write(1, 0x04, 0x07),
            write(2, 0x04, 0x07),
        ],
        _ => seq![
            set_block(1),
            enable(1),
            write(0, 0xf2, 0x7f),
            write(1, 0x07, 0x01),
            write(0, 0x04, 0x07),
            write(1, 0x00, 0x07),
        ],
    }
}


/// Appending to a log appends to what follows any prefix of it.
pub proof fn lemma_skip_push(log: Seq<BusOperation>, start: int, operation: BusOperation)
    requires
        0 <= start <= log.len(),
    ensures
        log.push(operation).skip(start) == log.skip(start).push(operation),
{
    assert(log.push(operation).skip(start) =~= log.skip(start).push(operation));
}

/// Carrying out one more step of a plan successfully.
proof fn lemma_plan_step(plan: Seq<BusOperation>, done: int)
    requires
        0 <= done < plan.len(),
    ensures
        plan.take(done).push(plan[done]) == plan.take(done + 1),
{
    assert(plan.take(done).push(plan[done]) =~= plan.take(done + 1));
}

/// A plan whose step `done` failed after all earlier steps succeeded.
proof fn lemma_plan_failed(plan: Seq<BusOperation>, done: int)
    requires
        0 <= done < plan.len(),
        can_fail(plan[done]),
    ensures
        plan_executed(plan, plan.take(done).push(failed_operation(plan[done])), false),
{
    let ops = plan.take(done).push(failed_operation(plan[done]));
    assert(ops.drop_last() =~= plan.take(done));
}

/// Brings up the SDIO functions of a product with the vendor sequence, stopping at the
/// first operation the bus refuses.
pub fn initialize_sdio_functions<I: AicSdioIo>(io: &mut I, product: Aic8800Product) -> (result:
    Result<(), AicSdioInitError<I::Error>>)
    ensures
        log_extends(old(io).bus_log(), final(io).bus_log()),
        plan_executed(
            sdio_init_plan(product),
            final(io).bus_log().skip(old(io).bus_log().len() as int),
            result is Ok,
        ),
        result is Err ==> result->Err_0 is Io,
{
    let ghost start = io.bus_log();
    let ghost plan = sdio_init_plan(product);
    assert(start.skip(start.len() as int) =~= plan.take(0));
    let r = io.set_block_size(1, SDIO_BLOCK_SIZE as u16);
    proof {
        lemma_skip_push(start, start.len() as int, io.bus_log().last());
    }
    if let Err(error) = r {
        proof {
            lemma_plan_failed(plan, 0);
        }
        return Err(AicSdioInitError::Io(error));
    }
    proof {
        lemma_plan_step(plan, 0);
    }
    let ghost before = io.bus_log();
    let r = io.enable_function(1);
    proof {
        lemma_skip_push(before, start.len() as int, io.bus_log().last());
    }
    if let Err(error) = r {
        proof {
            lemma_plan_failed(plan, 1);
        }
        return Err(AicSdioInitError::Io(error));
    }
    proof {
        lemma_plan_step(plan, 1);
    }
    match product {
        Aic8800Product::Aic8801 => {
            let ghost before = io.bus_log();
            io.delay_us(100);
            proof {
                lemma_skip_push(before, start.len() as int, io.bus_log().last());
                lemma_plan_step(plan, 2);
            }
            let steps: [(u32, u8); 3] = [(0x0b, 0x01), (0x11, 0x01), (0x04, 0x07)];
            let functions: [u8; 3] = [1, 1, 1];
            run_register_writes(io, &functions, &steps, Ghost(start), Ghost(plan), Ghost(3nat))
        },
        Aic8800Product::Aic8800Dc => {
            let ghost before = io.bus_log();
            io.delay_us(100);
            proof {
                lemma_skip_push(before, start.len() as int, io.bus_log().last());
                lemma_plan_step(plan, 2);
            }
            let ghost before = io.bus_log();
            let r = io.set_block_size(2, SDIO_BLOCK_SIZE as u16);
            proof {
                lemma_skip_push(before, start.len() as int, io.bus_log().last());
            }
            if let Err(error) = r {
                proof {
                    lemma_plan_failed(plan, 3);
                }
                return Err(AicSdioInitError::Io(error));
            }
            proof {
                lemma_plan_step(plan, 3);
            }
            let ghost before = io.bus_log();
            let r = io.enable_function(2);
            proof {
                lemma_skip_push(before, start.len() as int, io.bus_log().last());
            }
            if let Err(error) = r {
                proof {
                    lemma_plan_failed(plan, 4);
                }
                return Err(AicSdioInitError::Io(error));
            }
            proof {
                lemma_plan_step(plan, 4);
            }
            let steps: [(u32, u8); 6] = [
                (0x0b, 0x01),
                (0x11, 0x01),
                (0x0b, 0x01),
                (0x11, 0x01),
                (0x04, 0x07),
                (0x04, 0x07),
            ];
            let functions: [u8; 6] = [2, 2, 1, 1, 1, 2];
            run_register_writes(io, &functions, &steps, Ghost(start), Ghost(plan), Ghost(5nat))
        },
        _ => {
            let steps: [(u32, u8); 4] = [(0xf2, 0x7f), (0x07, 0x01), (0x04, 0x07), (0x00, 0x07)];
            let functions: [u8; 4] = [0, 1, 0, 1];
            run_register_writes(io, &functions, &steps, Ghost(start), Ghost(plan), Ghost(2nat))
        },
    }
}

/// Performs the register writes that finish a bring-up plan, the `i`-th write going to
/// `functions[i]` at `steps[i]`, stopping at the first failure.
fn run_register_writes<I: AicSdioIo>(
    io: &mut I,
    functions: &[u8],
    steps: &[(u32, u8)],
    Ghost(start): Ghost<Seq<BusOperation>>,
    Ghost(plan): Ghost<Seq<BusOperation>>,
    Ghost(done): Ghost<nat>,
) -> (result: Result<(), AicSdioInitError<I::Error>>)
    requires
        functions@.len() == steps@.len(),
        done + steps@.len() == plan.len(),
        log_extends(start, old(io).bus_log()),
        old(io).bus_log().skip(start.len() as int) == plan.take(done as int),
        forall|i: int|
            0 <= i < steps@.len() ==> plan[done + i] == write(
                functions@[i],
                (#[trigger] steps@[i]).0,
                steps@[i].1,
            ),
    ensures
        log_extends(start, final(io).bus_log()),
        plan_executed(plan, final(io).bus_log().skip(start.len() as int), result is Ok),
        result is Err ==> result->Err_0 is Io,
{
    let mut i: usize = 0;
    while i < steps.len()
        invariant
            i <= steps@.len(),
            functions@.len() == steps@.len(),
            done + steps@.len() == plan.len(),
            log_extends(start, io.bus_log()),
            io.bus_log().skip(start.len() as int) == plan.take(done + i),
            forall|k: int|
                0 <= k < steps@.len() ==> plan[done + k] == write(
                    functions@[k],
                    (#[trigger] steps@[k]).0,
                    steps@[k].1,
                ),
        decreases steps@.len() - i,
    {
        let (address, value) = steps[i];
        let ghost before = io.bus_log();
        let r = io.write_register(functions[i], address, value);
        assert(plan[done + i] == write(functions@[i as int], steps@[i as int].0, steps@[i as int].1));
        proof {
            lemma_skip_push(before, start.len() as int, io.bus_log().last());
        }
        if let Err(error) = r {
            proof {
                lemma_plan_failed(plan, done + i);
            }
            return Err(AicSdioInitError::Io(error));
        }
        proof {
            lemma_plan_step(plan, done + i);
        }
        i = i + 1;
    }
    assert(plan.take(plan.len() as int) =~= plan);
    Ok(())
}

} // verus!
