//! A client of the firmware's debug task: memory reads and writes, image uploads and
//! the start of an application, each one configuration command round trip.
use vstd::prelude::*;

use crate::bytes::le32;
use crate::d80::D80FirmwareIo;
use crate::device::{Aic8800Product, spec_command_header_mode};
use crate::firmware::{
    DBG_MEM_READ_CONFIRM, DBG_MEM_READ_REQUEST, DBG_MEM_WRITE_CONFIRM, DBG_MEM_WRITE_REQUEST,
    DBG_START_APP_CONFIRM, DBG_START_APP_REQUEST, DEBUG_TASK_ID, DRIVER_TASK_ID,
    DebugMemoryReadError, DebugMemoryWriteError, DebugStartAppError, FirmwareUploadError,
    block_count, blocks_written_at, decode_debug_memory_read_confirmation,
    decode_debug_start_app_confirmation, encode_debug_memory_read_parameters,
    encode_debug_memory_write_parameters, encode_debug_start_app_parameters,
    spec_debug_memory_read_confirmation, spec_debug_start_app_confirmation, upload_block_transfer,
    first_block_parameter_length, upload_firmware_image, upload_outcome,
};
use crate::patch_table::{AicPatchMemory, MemoryOperation};
use crate::protocol::ConfigResponseView;
use crate::response::AicResponseIo;
use crate::sdio::{AicCommandIo, BusOperation, CommandIoError, appended, log_extends};
use crate::transaction::{
    AicTransactionError, execute_config_command, received_response, round_trip, sent_command,
    spec_command_transfer, transaction_failure_stated, transaction_view,
};

verus! {

#[derive(Clone, Copy, Debug, Eq, PartialEq)]
pub enum AicDebugError<E> {
    ReadParameters(DebugMemoryReadError),
    ReadConfirmation(DebugMemoryReadError),
    WriteParameters(DebugMemoryWriteError),
    StartParameters(DebugStartAppError),
    StartConfirmation(DebugStartAppError),
    Transaction(AicTransactionError<E>),
    Upload(FirmwareUploadError<E>),
}

/// The transfer of a debug task command with `parameter`.
pub open spec fn debug_transfer(product: Aic8800Product, request_id: u16, parameter: Seq<u8>) -> Seq<
    u8,
> {
    spec_command_transfer(
        spec_command_header_mode(product),
        request_id,
        DEBUG_TASK_ID,
        DRIVER_TASK_ID,
        parameter,
    )
}

/// Whether a response to a memory read of `address` carrying `value` was found in what
/// `received` holds.
pub open spec fn word_read_confirmed(received: Seq<u8>, address: u32, value: u32) -> bool {
    exists|response: ConfigResponseView|
        #[trigger] received_response(received, DBG_MEM_READ_CONFIRM, response)
            && spec_debug_memory_read_confirmation(response.parameter, address) == Ok::<
            u32,
            DebugMemoryReadError,
        >(value)
}

/// Whether a response to a memory write was found in what `received` holds.
pub open spec fn word_write_confirmed(received: Seq<u8>) -> bool {
    exists|response: ConfigResponseView| #[trigger]
        received_response(received, DBG_MEM_WRITE_CONFIRM, response)
}

/// Whether a start confirmation carrying `status` was found in what `received` holds.
pub open spec fn start_confirmed(received: Seq<u8>, status: u32) -> bool {
    exists|response: ConfigResponseView|
        #[trigger] received_response(received, DBG_START_APP_CONFIRM, response)
            && spec_debug_start_app_confirmation(response.parameter) == Ok::<u32, DebugStartAppError>(
            status,
        )
}

/// The transaction error a debug request ended with, if it ended with one.
pub open spec fn debug_transaction_error<T, E>(result: Result<T, AicDebugError<E>>) -> Option<
    AicTransactionError<E>,
> {
    match result {
        Err(AicDebugError::Transaction(error)) => Some(error),
        _ => None,
    }
}

/// Whether a response to a memory read of `address` was found in what `received` holds
/// that its decoding refuses with `error`.
pub open spec fn word_read_refused(received: Seq<u8>, address: u32, error: DebugMemoryReadError) -> bool {
    exists|response: ConfigResponseView|
        #[trigger] received_response(received, DBG_MEM_READ_CONFIRM, response)
            && spec_debug_memory_read_confirmation(response.parameter, address) == Err::<
            u32,
            DebugMemoryReadError,
        >(error)
}

/// Whether a start confirmation was found in what `received` holds that its decoding
/// refuses with `error`.
pub open spec fn start_refused(received: Seq<u8>, error: DebugStartAppError) -> bool {
    exists|response: ConfigResponseView|
        #[trigger] received_response(received, DBG_START_APP_CONFIRM, response)
            && spec_debug_start_app_confirmation(response.parameter) == Err::<u32, DebugStartAppError>(
            error,
        )
}

/// Whether `result` is what a memory read of `address` returns for the round trip
/// `outcome`: the word its confirmation carries, the confirmation's decode error, or the
/// round trip's own error.
pub open spec fn word_read_result<E>(
    outcome: Result<ConfigResponseView, AicTransactionError<E>>,
    address: u32,
    result: Result<u32, AicDebugError<E>>,
) -> bool {
    match outcome {
        Ok(response) => match spec_debug_memory_read_confirmation(response.parameter, address) {
            Ok(value) => result == Ok::<u32, AicDebugError<E>>(value),
            Err(error) => result == Err::<u32, AicDebugError<E>>(AicDebugError::ReadConfirmation(error)),
        },
        Err(error) => result == Err::<u32, AicDebugError<E>>(AicDebugError::Transaction(error)),
    }
}

/// Whether `result` is what a memory write returns for the round trip `outcome`.
pub open spec fn word_write_result<E>(
    outcome: Result<ConfigResponseView, AicTransactionError<E>>,
    result: Result<(), AicDebugError<E>>,
) -> bool {
    match outcome {
        Ok(_) => result == Ok::<(), AicDebugError<E>>(()),
        Err(error) => result == Err::<(), AicDebugError<E>>(AicDebugError::Transaction(error)),
    }
}

/// Whether `result` is what an application start returns for the round trip `outcome`:
/// the status its confirmation carries, the confirmation's decode error, or the round
/// trip's own error.
pub open spec fn start_result<E>(
    outcome: Result<ConfigResponseView, AicTransactionError<E>>,
    result: Result<u32, AicDebugError<E>>,
) -> bool {
    match outcome {
        Ok(response) => match spec_debug_start_app_confirmation(response.parameter) {
            Ok(status) => result == Ok::<u32, AicDebugError<E>>(status),
            Err(error) => result == Err::<u32, AicDebugError<E>>(AicDebugError::StartConfirmation(error)),
        },
        Err(error) => result == Err::<u32, AicDebugError<E>>(AicDebugError::Transaction(error)),
    }
}

/// The upload result that an image upload's `result` carries: success, the upload error,
/// or, for an error that is not one of the upload's, the empty-image error (which the
/// upload of a non-empty image never returns).
pub open spec fn upload_result<E>(result: Result<(), AicDebugError<E>>) -> Result<
    (),
    FirmwareUploadError<E>,
> {
    match result {
        Ok(_) => Ok(()),
        Err(AicDebugError::Upload(error)) => Err(error),
        Err(_) => Err(FirmwareUploadError::EmptyImage),
    }
}

/// A client of the debug task over a device handle and the storage the round trips use.
pub struct AicDebugClient<'a, I> {
    io: &'a mut I,
    product: Aic8800Product,
    parameter_storage: &'a mut [u8],
    transmit_storage: &'a mut [u8],
    receive_storage: &'a mut [u8],
    response_timeout_ms: u32,
    memory: Ghost<Seq<MemoryOperation>>,
}

impl<'a, I> AicDebugClient<'a, I> where
    I: AicCommandIo + AicResponseIo<Error = <I as AicCommandIo>::Error>,
 {
    /// The bus log of the device handle.
    pub closed spec fn io_log(&self) -> Seq<BusOperation> {
        self.io.bus_log()
    }

    pub closed spec fn product(&self) -> Aic8800Product {
        self.product
    }

    /// The bytes of parameter storage.
    pub closed spec fn parameter_capacity(&self) -> nat {
        self.parameter_storage@.len()
    }

    /// What receive storage holds.
    pub closed spec fn received(&self) -> Seq<u8> {
        self.receive_storage@
    }

    /// The bytes of transmit storage.
    pub closed spec fn transmit_capacity(&self) -> nat {
        self.transmit_storage@.len()
    }

    pub closed spec fn response_timeout(&self) -> u32 {
        self.response_timeout_ms
    }

    /// The memory operations performed through the client.
    pub closed spec fn memory(&self) -> Seq<MemoryOperation> {
        self.memory@
    }

    /// A client over `io` for `product`, waiting up to `response_timeout_ms` for each
    /// response.
    pub fn new(
        io: &'a mut I,
        product: Aic8800Product,
        parameter_storage: &'a mut [u8],
        transmit_storage: &'a mut [u8],
        receive_storage: &'a mut [u8],
        response_timeout_ms: u32,
    ) -> (client: Self)
        ensures
            client.product() == product,
            client.parameter_capacity() == old(parameter_storage)@.len(),
            client.response_timeout() == response_timeout_ms,
            client.transmit_capacity() == old(transmit_storage)@.len(),
            client.memory() == Seq::<MemoryOperation>::empty(),
    {
        AicDebugClient {
            io,
            product,
            parameter_storage,
            transmit_storage,
            receive_storage,
            response_timeout_ms,
            memory: Ghost(Seq::empty()),
        }
    }

    /// Reads the word at `address` of the chip's memory.
    #[verifier::rlimit(60)]
    pub fn read_word(&mut self, address: u32) -> (result: Result<
        u32,
        AicDebugError<<I as AicCommandIo>::Error>,
    >)
        ensures
            final(self).product() == old(self).product(),
            final(self).parameter_capacity() == old(self).parameter_capacity(),
            final(self).response_timeout() == old(self).response_timeout(),
            final(self).transmit_capacity() == old(self).transmit_capacity(),
            final(self).memory() == old(self).memory().push(
                MemoryOperation::ReadWord {
                    address,
                    value: match result {
                        Ok(value) => Some(value),
                        Err(_) => None,
                    },
                },
            ),
            log_extends(old(self).io_log(), final(self).io_log()),
            old(self).parameter_capacity() < 4 ==> (result matches Err(AicDebugError::ReadParameters(
                DebugMemoryReadError::OutputTooShort { required, available },
            )) && required == 4 && available == old(self).parameter_capacity()),
            result matches Err(AicDebugError::ReadParameters(_)) ==> old(self).parameter_capacity() < 4,
            old(self).parameter_capacity() >= 4 ==> transaction_failure_stated(
                old(self).product(),
                debug_transfer(old(self).product(), DBG_MEM_READ_REQUEST, le32(address)),
                4,
                old(self).transmit_capacity(),
                old(self).response_timeout(),
                final(self).io_log().skip(old(self).io_log().len() as int),
                debug_transaction_error(result),
            ),
            result matches Err(AicDebugError::ReadConfirmation(error)) ==> sent_command(
                old(self).product(),
                final(self).io_log().skip(old(self).io_log().len() as int),
                debug_transfer(old(self).product(), DBG_MEM_READ_REQUEST, le32(address)),
            ) && word_read_refused(final(self).received(), address, error),
            result matches Ok(value) ==> sent_command(
                old(self).product(),
                final(self).io_log().skip(old(self).io_log().len() as int),
                debug_transfer(old(self).product(), DBG_MEM_READ_REQUEST, le32(address)),
            ) && word_read_confirmed(final(self).received(), address, value),
            old(self).parameter_capacity() >= 4 ==> exists|outcome: Result<ConfigResponseView, AicTransactionError<CommandIoError<I>>>|
                #[trigger] round_trip(
                    old(self).product(),
                    DBG_MEM_READ_REQUEST,
                    DEBUG_TASK_ID,
                    DRIVER_TASK_ID,
                    le32(address),
                    DBG_MEM_READ_CONFIRM,
                    old(self).transmit_capacity(),
                    old(self).response_timeout(),
                    appended(old(self).io_log(), final(self).io_log()),
                    old(self).received(),
                    final(self).received(),
                    outcome,
                ) && word_read_result(outcome, address, result),
    {
        let outcome = self.read_word_inner(address);
        let ghost inner_log = self.io_log();
        let ghost inner_received = self.received();
        let ghost value = match outcome {
            Ok(value) => Some(value),
            Err(_) => None,
        };
        self.memory = Ghost(self.memory@.push(MemoryOperation::ReadWord { address, value }));
        assert(self.io_log() == inner_log && self.received() == inner_received);
        outcome
    }

    #[verifier::rlimit(60)]
    fn read_word_inner(&mut self, address: u32) -> (result: Result<
        u32,
        AicDebugError<<I as AicCommandIo>::Error>,
    >)
        ensures
            final(self).product() == old(self).product(),
            final(self).parameter_capacity() == old(self).parameter_capacity(),
            final(self).response_timeout() == old(self).response_timeout(),
            final(self).transmit_capacity() == old(self).transmit_capacity(),
            final(self).memory() == old(self).memory(),
            log_extends(old(self).io_log(), final(self).io_log()),
            old(self).parameter_capacity() < 4 ==> (result matches Err(AicDebugError::ReadParameters(
                DebugMemoryReadError::OutputTooShort { required, available },
            )) && required == 4 && available == old(self).parameter_capacity()),
            result matches Err(AicDebugError::ReadParameters(_)) ==> old(self).parameter_capacity() < 4,
            old(self).parameter_capacity() >= 4 ==> transaction_failure_stated(
                old(self).product(),
                debug_transfer(old(self).product(), DBG_MEM_READ_REQUEST, le32(address)),
                4,
                old(self).transmit_capacity(),
                old(self).response_timeout(),
                final(self).io_log().skip(old(self).io_log().len() as int),
                debug_transaction_error(result),
            ),
            result matches Err(AicDebugError::ReadConfirmation(error)) ==> sent_command(
                old(self).product(),
                final(self).io_log().skip(old(self).io_log().len() as int),
                debug_transfer(old(self).product(), DBG_MEM_READ_REQUEST, le32(address)),
            ) && word_read_refused(final(self).received(), address, error),
            result matches Ok(value) ==> sent_command(
                old(self).product(),
                final(self).io_log().skip(old(self).io_log().len() as int),
                debug_transfer(old(self).product(), DBG_MEM_READ_REQUEST, le32(address)),
            ) && word_read_confirmed(final(self).received(), address, value),
            old(self).parameter_capacity() >= 4 ==> exists|outcome: Result<ConfigResponseView, AicTransactionError<CommandIoError<I>>>|
                #[trigger] round_trip(
                    old(self).product(),
                    DBG_MEM_READ_REQUEST,
                    DEBUG_TASK_ID,
                    DRIVER_TASK_ID,
                    le32(address),
                    DBG_MEM_READ_CONFIRM,
                    old(self).transmit_capacity(),
                    old(self).response_timeout(),
                    appended(old(self).io_log(), final(self).io_log()),
                    old(self).received(),
                    final(self).received(),
                    outcome,
                ) && word_read_result(outcome, address, result),
    {
        let parameter_length = match encode_debug_memory_read_parameters(
            self.parameter_storage,
            address,
        ) {
            Ok(length) => length,
            Err(error) => {
                assert(self.io.bus_log().skip(self.io.bus_log().len() as int).len() == 0);
                return Err(AicDebugError::ReadParameters(error));
            },
        };
        assert(self.parameter_storage@.subrange(0, 4) =~= le32(address));
        let exchanged = execute_config_command(
            self.io,
            self.product,
            DBG_MEM_READ_REQUEST,
            DBG_MEM_READ_CONFIRM,
            DEBUG_TASK_ID,
            DRIVER_TASK_ID,
            &self.parameter_storage[0..parameter_length],
            self.transmit_storage,
            self.receive_storage,
            self.response_timeout_ms,
        );
        let ghost outcome = transaction_view(exchanged);
        let response = match exchanged {
            Ok(response) => response,
            Err(error) => {
                proof {
                    assert(round_trip(
                        old(self).product(),
                        DBG_MEM_READ_REQUEST,
                        DEBUG_TASK_ID,
                        DRIVER_TASK_ID,
                        le32(address),
                        DBG_MEM_READ_CONFIRM,
                        old(self).transmit_capacity(),
                        old(self).response_timeout(),
                        appended(old(self).io_log(), self.io_log()),
                        old(self).received(),
                        self.received(),
                        outcome,
                    ));
                }
                return Err(AicDebugError::Transaction(error));
            },
        };
        let result = match decode_debug_memory_read_confirmation(response.parameter, address) {
            Ok(value) => {
                assert(received_response(self.receive_storage@, DBG_MEM_READ_CONFIRM, response@));
                Ok(value)
            },
            Err(error) => {
                assert(received_response(self.receive_storage@, DBG_MEM_READ_CONFIRM, response@));
                Err(AicDebugError::ReadConfirmation(error))
            },
        };
        proof {
            assert(round_trip(
                old(self).product(),
                DBG_MEM_READ_REQUEST,
                DEBUG_TASK_ID,
                DRIVER_TASK_ID,
                le32(address),
                DBG_MEM_READ_CONFIRM,
                old(self).transmit_capacity(),
                old(self).response_timeout(),
                appended(old(self).io_log(), self.io_log()),
                old(self).received(),
                self.received(),
                outcome,
            ));
        }
        result
    }
    /// Writes `value` to the word at `address` of the chip's memory.
    #[verifier::rlimit(60)]
    pub fn write_word(&mut self, address: u32, value: u32) -> (result: Result<
        (),
        AicDebugError<<I as AicCommandIo>::Error>,
    >)
        ensures
            final(self).product() == old(self).product(),
            final(self).parameter_capacity() == old(self).parameter_capacity(),
            final(self).response_timeout() == old(self).response_timeout(),
            final(self).transmit_capacity() == old(self).transmit_capacity(),
            final(self).memory() == old(self).memory().push(
                MemoryOperation::WriteWord { address, value, succeeded: result is Ok },
            ),
            log_extends(old(self).io_log(), final(self).io_log()),
            old(self).parameter_capacity() < 8 ==> (result matches Err(AicDebugError::WriteParameters(
                DebugMemoryWriteError::OutputTooShort { required, available },
            )) && required == 8 && available == old(self).parameter_capacity()),
            result matches Err(AicDebugError::WriteParameters(_)) ==> old(self).parameter_capacity() < 8,
            old(self).parameter_capacity() >= 8 ==> transaction_failure_stated(
                old(self).product(),
                debug_transfer(
                    old(self).product(),
                    DBG_MEM_WRITE_REQUEST,
                    le32(address) + le32(value),
                ),
                8,
                old(self).transmit_capacity(),
                old(self).response_timeout(),
                final(self).io_log().skip(old(self).io_log().len() as int),
                debug_transaction_error(result),
            ),
            result is Ok ==> sent_command(
                old(self).product(),
                final(self).io_log().skip(old(self).io_log().len() as int),
                debug_transfer(
                    old(self).product(),
                    DBG_MEM_WRITE_REQUEST,
                    le32(address) + le32(value),
                ),
            ) && word_write_confirmed(final(self).received()),
            old(self).parameter_capacity() >= 8 ==> exists|outcome: Result<ConfigResponseView, AicTransactionError<CommandIoError<I>>>|
                #[trigger] round_trip(
                    old(self).product(),
                    DBG_MEM_WRITE_REQUEST,
                    DEBUG_TASK_ID,
                    DRIVER_TASK_ID,
                    le32(address) + le32(value),
                    DBG_MEM_WRITE_CONFIRM,
                    old(self).transmit_capacity(),
                    old(self).response_timeout(),
                    appended(old(self).io_log(), final(self).io_log()),
                    old(self).received(),
                    final(self).received(),
                    outcome,
                ) && word_write_result(outcome, result),
    {
        let outcome = self.write_word_inner(address, value);
        let ghost inner_log = self.io_log();
        let ghost inner_received = self.received();
        self.memory = Ghost(
            self.memory@.push(MemoryOperation::WriteWord { address, value, succeeded: outcome is Ok }),
        );
        assert(self.io_log() == inner_log && self.received() == inner_received);
        outcome
    }

    #[verifier::rlimit(60)]
    fn write_word_inner(&mut self, address: u32, value: u32) -> (result: Result<
        (),
        AicDebugError<<I as AicCommandIo>::Error>,
    >)
        ensures
            final(self).product() == old(self).product(),
            final(self).parameter_capacity() == old(self).parameter_capacity(),
            final(self).response_timeout() == old(self).response_timeout(),
            final(self).transmit_capacity() == old(self).transmit_capacity(),
            final(self).memory() == old(self).memory(),
            log_extends(old(self).io_log(), final(self).io_log()),
            old(self).parameter_capacity() < 8 ==> (result matches Err(AicDebugError::WriteParameters(
                DebugMemoryWriteError::OutputTooShort { required, available },
            )) && required == 8 && available == old(self).parameter_capacity()),
            result matches Err(AicDebugError::WriteParameters(_)) ==> old(self).parameter_capacity() < 8,
            old(self).parameter_capacity() >= 8 ==> transaction_failure_stated(
                old(self).product(),
                debug_transfer(
                    old(self).product(),
                    DBG_MEM_WRITE_REQUEST,
                    le32(address) + le32(value),
                ),
                8,
                old(self).transmit_capacity(),
                old(self).response_timeout(),
                final(self).io_log().skip(old(self).io_log().len() as int),
                debug_transaction_error(result),
            ),
            result is Ok ==> sent_command(
                old(self).product(),
                final(self).io_log().skip(old(self).io_log().len() as int),
                debug_transfer(
                    old(self).product(),
                    DBG_MEM_WRITE_REQUEST,
                    le32(address) + le32(value),
                ),
            ) && word_write_confirmed(final(self).received()),
            old(self).parameter_capacity() >= 8 ==> exists|outcome: Result<ConfigResponseView, AicTransactionError<CommandIoError<I>>>|
                #[trigger] round_trip(
                    old(self).product(),
                    DBG_MEM_WRITE_REQUEST,
                    DEBUG_TASK_ID,
                    DRIVER_TASK_ID,
                    le32(address) + le32(value),
                    DBG_MEM_WRITE_CONFIRM,
                    old(self).transmit_capacity(),
                    old(self).response_timeout(),
                    appended(old(self).io_log(), final(self).io_log()),
                    old(self).received(),
                    final(self).received(),
                    outcome,
                ) && word_write_result(outcome, result),
    {
        let parameter_length = match encode_debug_memory_write_parameters(
            self.parameter_storage,
            address,
            value,
        ) {
            Ok(length) => length,
            Err(error) => return Err(AicDebugError::WriteParameters(error)),
        };
        assert(self.parameter_storage@.subrange(0, 8) =~= le32(address) + le32(value));
        let exchanged = execute_config_command(
            self.io,
            self.product,
            DBG_MEM_WRITE_REQUEST,
            DBG_MEM_WRITE_CONFIRM,
            DEBUG_TASK_ID,
            DRIVER_TASK_ID,
            &self.parameter_storage[0..parameter_length],
            self.transmit_storage,
            self.receive_storage,
            self.response_timeout_ms,
        );
        let ghost outcome = transaction_view(exchanged);
        let result = match exchanged {
            Ok(response) => {
                assert(received_response(self.receive_storage@, DBG_MEM_WRITE_CONFIRM, response@));
                Ok(())
            },
            Err(error) => Err(AicDebugError::Transaction(error)),
        };
        proof {
            assert(round_trip(
                old(self).product(),
                DBG_MEM_WRITE_REQUEST,
                DEBUG_TASK_ID,
                DRIVER_TASK_ID,
                le32(address) + le32(value),
                DBG_MEM_WRITE_CONFIRM,
                old(self).transmit_capacity(),
                old(self).response_timeout(),
                appended(old(self).io_log(), self.io_log()),
                old(self).received(),
                self.received(),
                outcome,
            ));
        }
        result
    }

    /// Uploads `image` to the chip's memory from `address`.
    pub fn upload_image(&mut self, address: u32, image: &[u8]) -> (result: Result<
        (),
        AicDebugError<<I as AicCommandIo>::Error>,
    >)
        ensures
            final(self).product() == old(self).product(),
            final(self).parameter_capacity() == old(self).parameter_capacity(),
            final(self).response_timeout() == old(self).response_timeout(),
            final(self).transmit_capacity() == old(self).transmit_capacity(),
            final(self).memory() == old(self).memory().push(
                MemoryOperation::UploadImage { address, image: image@, succeeded: result is Ok },
            ),
            log_extends(old(self).io_log(), final(self).io_log()),
            (result == Err::<(), AicDebugError<<I as AicCommandIo>::Error>>(
                AicDebugError::Upload(FirmwareUploadError::EmptyImage),
            )) <==> image@.len() == 0,
            result is Ok ==> forall|k: nat|
                k < block_count(image@.len()) ==> sent_command(
                    old(self).product(),
                    final(self).io_log().skip(old(self).io_log().len() as int),
                    #[trigger] upload_block_transfer(old(self).product(), address, image@, k),
                ),
            result is Ok ==> exists|positions: Seq<int>|
                positions.len() == block_count(image@.len()) && #[trigger] blocks_written_at(
                    old(self).product(),
                    address,
                    image@,
                    final(self).io_log().skip(old(self).io_log().len() as int),
                    positions,
                ),
            image@.len() > 0 && old(self).parameter_capacity() >= first_block_parameter_length(
                image@.len(),
            ) ==> upload_outcome(
                old(self).product(),
                address,
                image@,
                old(self).transmit_capacity(),
                old(self).response_timeout(),
                appended(old(self).io_log(), final(self).io_log()),
                old(self).received(),
                final(self).received(),
                upload_result(result),
            ),
    {
        let ghost start = self.io.bus_log();
        let outcome = upload_firmware_image(
            self.io,
            self.product,
            address,
            image,
            self.parameter_storage,
            self.transmit_storage,
            self.receive_storage,
            self.response_timeout_ms,
        );
        self.memory = Ghost(
            self.memory@.push(
                MemoryOperation::UploadImage { address, image: image@, succeeded: outcome is Ok },
            ),
        );
        match outcome {
            Ok(()) => {
                proof {
                    let operations = self.io.bus_log().skip(start.len() as int);
                    let positions = choose|positions: Seq<int>|
                        positions.len() == block_count(image@.len()) && #[trigger] blocks_written_at(
                            self.product,
                            address,
                            image@,
                            operations,
                            positions,
                        );
                    assert(blocks_written_at(self.product, address, image@, operations, positions));
                    assert(start == old(self).io_log());
                    assert(self.io_log() == self.io.bus_log());
                    assert(exists|positions: Seq<int>|
                        positions.len() == block_count(image@.len()) && #[trigger] blocks_written_at(
                            self.product,
                            address,
                            image@,
                            self.io_log().skip(old(self).io_log().len() as int),
                            positions,
                        ));
                }
                Ok(())
            },
            Err(error) => Err(AicDebugError::Upload(error)),
        }
    }

    /// Starts the application at `boot_address` with `boot_type` and returns the status
    /// its confirmation carries.
    #[verifier::rlimit(60)]
    pub fn start_app(&mut self, boot_address: u32, boot_type: u32) -> (result: Result<
        u32,
        AicDebugError<<I as AicCommandIo>::Error>,
    >)
        ensures
            final(self).product() == old(self).product(),
            final(self).parameter_capacity() == old(self).parameter_capacity(),
            final(self).response_timeout() == old(self).response_timeout(),
            final(self).transmit_capacity() == old(self).transmit_capacity(),
            final(self).memory() == old(self).memory().push(
                MemoryOperation::StartApp {
                    address: boot_address,
                    boot_type,
                    status: match result {
                        Ok(status) => Some(status),
                        Err(_) => None,
                    },
                },
            ),
            log_extends(old(self).io_log(), final(self).io_log()),
            old(self).parameter_capacity() < 8 ==> (result matches Err(AicDebugError::StartParameters(
                DebugStartAppError::OutputTooShort { required, available },
            )) && required == 8 && available == old(self).parameter_capacity()),
            result matches Err(AicDebugError::StartParameters(_)) ==> old(self).parameter_capacity() < 8,
            old(self).parameter_capacity() >= 8 ==> transaction_failure_stated(
                old(self).product(),
                debug_transfer(
                    old(self).product(),
                    DBG_START_APP_REQUEST,
                    le32(boot_address) + le32(boot_type),
                ),
                8,
                old(self).transmit_capacity(),
                old(self).response_timeout(),
                final(self).io_log().skip(old(self).io_log().len() as int),
                debug_transaction_error(result),
            ),
            result matches Err(AicDebugError::StartConfirmation(error)) ==> sent_command(
                old(self).product(),
                final(self).io_log().skip(old(self).io_log().len() as int),
                debug_transfer(
                    old(self).product(),
                    DBG_START_APP_REQUEST,
                    le32(boot_address) + le32(boot_type),
                ),
            ) && start_refused(final(self).received(), error),
            result matches Ok(status) ==> sent_command(
                old(self).product(),
                final(self).io_log().skip(old(self).io_log().len() as int),
                debug_transfer(
                    old(self).product(),
                    DBG_START_APP_REQUEST,
                    le32(boot_address) + le32(boot_type),
                ),
            ) && start_confirmed(final(self).received(), status),
            old(self).parameter_capacity() >= 8 ==> exists|outcome: Result<ConfigResponseView, AicTransactionError<CommandIoError<I>>>|
                #[trigger] round_trip(
                    old(self).product(),
                    DBG_START_APP_REQUEST,
                    DEBUG_TASK_ID,
                    DRIVER_TASK_ID,
                    le32(boot_address) + le32(boot_type),
                    DBG_START_APP_CONFIRM,
                    old(self).transmit_capacity(),
                    old(self).response_timeout(),
                    appended(old(self).io_log(), final(self).io_log()),
                    old(self).received(),
                    final(self).received(),
                    outcome,
                ) && start_result(outcome, result),
    {
        let outcome = self.start_app_inner(boot_address, boot_type);
        let ghost inner_log = self.io_log();
        let ghost inner_received = self.received();
        let ghost status = match outcome {
            Ok(status) => Some(status),
            Err(_) => None,
        };
        self.memory = Ghost(
            self.memory@.push(MemoryOperation::StartApp { address: boot_address, boot_type, status }),
        );
        assert(self.io_log() == inner_log && self.received() == inner_received);
        outcome
    }

    #[verifier::rlimit(60)]
    fn start_app_inner(&mut self, boot_address: u32, boot_type: u32) -> (result: Result<
        u32,
        AicDebugError<<I as AicCommandIo>::Error>,
    >)
        ensures
            final(self).product() == old(self).product(),
            final(self).parameter_capacity() == old(self).parameter_capacity(),
            final(self).response_timeout() == old(self).response_timeout(),
            final(self).transmit_capacity() == old(self).transmit_capacity(),
            final(self).memory() == old(self).memory(),
            log_extends(old(self).io_log(), final(self).io_log()),
            old(self).parameter_capacity() < 8 ==> (result matches Err(AicDebugError::StartParameters(
                DebugStartAppError::OutputTooShort { required, available },
            )) && required == 8 && available == old(self).parameter_capacity()),
            result matches Err(AicDebugError::StartParameters(_)) ==> old(self).parameter_capacity() < 8,
            old(self).parameter_capacity() >= 8 ==> transaction_failure_stated(
                old(self).product(),
                debug_transfer(
                    old(self).product(),
                    DBG_START_APP_REQUEST,
                    le32(boot_address) + le32(boot_type),
                ),
                8,
                old(self).transmit_capacity(),
                old(self).response_timeout(),
                final(self).io_log().skip(old(self).io_log().len() as int),
                debug_transaction_error(result),
            ),
            result matches Err(AicDebugError::StartConfirmation(error)) ==> sent_command(
                old(self).product(),
                final(self).io_log().skip(old(self).io_log().len() as int),
                debug_transfer(
                    old(self).product(),
                    DBG_START_APP_REQUEST,
                    le32(boot_address) + le32(boot_type),
                ),
            ) && start_refused(final(self).received(), error),
            result matches Ok(status) ==> sent_command(
                old(self).product(),
                final(self).io_log().skip(old(self).io_log().len() as int),
                debug_transfer(
                    old(self).product(),
                    DBG_START_APP_REQUEST,
                    le32(boot_address) + le32(boot_type),
                ),
            ) && start_confirmed(final(self).received(), status),
            old(self).parameter_capacity() >= 8 ==> exists|outcome: Result<ConfigResponseView, AicTransactionError<CommandIoError<I>>>|
                #[trigger] round_trip(
                    old(self).product(),
                    DBG_START_APP_REQUEST,
                    DEBUG_TASK_ID,
                    DRIVER_TASK_ID,
                    le32(boot_address) + le32(boot_type),
                    DBG_START_APP_CONFIRM,
                    old(self).transmit_capacity(),
                    old(self).response_timeout(),
                    appended(old(self).io_log(), final(self).io_log()),
                    old(self).received(),
                    final(self).received(),
                    outcome,
                ) && start_result(outcome, result),
    {
        let parameter_length = match encode_debug_start_app_parameters(
            self.parameter_storage,
            boot_address,
            boot_type,
        ) {
            Ok(length) => length,
            Err(error) => return Err(AicDebugError::StartParameters(error)),
        };
        assert(self.parameter_storage@.subrange(0, 8) =~= le32(boot_address) + le32(boot_type));
        let exchanged = execute_config_command(
            self.io,
            self.product,
            DBG_START_APP_REQUEST,
            DBG_START_APP_CONFIRM,
            DEBUG_TASK_ID,
            DRIVER_TASK_ID,
            &self.parameter_storage[0..parameter_length],
            self.transmit_storage,
            self.receive_storage,
            self.response_timeout_ms,
        );
        let ghost outcome = transaction_view(exchanged);
        let response = match exchanged {
            Ok(response) => response,
            Err(error) => {
                proof {
                    assert(round_trip(
                        old(self).product(),
                        DBG_START_APP_REQUEST,
                        DEBUG_TASK_ID,
                        DRIVER_TASK_ID,
                        le32(boot_address) + le32(boot_type),
                        DBG_START_APP_CONFIRM,
                        old(self).transmit_capacity(),
                        old(self).response_timeout(),
                        appended(old(self).io_log(), self.io_log()),
                        old(self).received(),
                        self.received(),
                        outcome,
                    ));
                }
                return Err(AicDebugError::Transaction(error));
            },
        };
        let result = match decode_debug_start_app_confirmation(response.parameter) {
            Ok(status) => {
                assert(received_response(self.receive_storage@, DBG_START_APP_CONFIRM, response@));
                Ok(status)
            },
            Err(error) => {
                assert(received_response(self.receive_storage@, DBG_START_APP_CONFIRM, response@));
                Err(AicDebugError::StartConfirmation(error))
            },
        };
        proof {
            assert(round_trip(
                old(self).product(),
                DBG_START_APP_REQUEST,
                DEBUG_TASK_ID,
                DRIVER_TASK_ID,
                le32(boot_address) + le32(boot_type),
                DBG_START_APP_CONFIRM,
                old(self).transmit_capacity(),
                old(self).response_timeout(),
                appended(old(self).io_log(), self.io_log()),
                old(self).received(),
                self.received(),
                outcome,
            ));
        }
        result
    }
}

impl<'a, I> AicPatchMemory for AicDebugClient<'a, I> where
    I: AicCommandIo + AicResponseIo<Error = <I as AicCommandIo>::Error>,
 {
    type Error = AicDebugError<<I as AicCommandIo>::Error>;

    closed spec fn memory_log(&self) -> Seq<MemoryOperation> {
        self.memory@
    }

    fn write_word(&mut self, address: u32, value: u32) -> (result: Result<(), Self::Error>) {
        AicDebugClient::write_word(self, address, value)
    }

    fn delay_us(&mut self, microseconds: u32) {
        AicCommandIo::delay_us(self.io, microseconds);
        self.memory = Ghost(self.memory@.push(MemoryOperation::DelayUs { microseconds }));
    }
}

impl<'a, I> D80FirmwareIo for AicDebugClient<'a, I> where
    I: AicCommandIo + AicResponseIo<Error = <I as AicCommandIo>::Error>,
 {
    fn read_word(&mut self, address: u32) -> (result: Result<u32, Self::Error>) {
        AicDebugClient::read_word(self, address)
    }

    fn upload_image(&mut self, address: u32, image: &[u8]) -> (result: Result<(), Self::Error>) {
        AicDebugClient::upload_image(self, address, image)
    }

    fn start_app(&mut self, address: u32, boot_type: u32) -> (result: Result<u32, Self::Error>) {
        AicDebugClient::start_app(self, address, boot_type)
    }
}

} // verus!
