//! Starting the firmware's MAC and adding the station interface.
use vstd::prelude::*;

use crate::bytes::{copy_prefix, le16, le32, zeros};
use crate::device::{Aic8800Product, spec_command_header_mode};
use crate::firmware::DRIVER_TASK_ID;
use crate::management::MM_TASK_ID;
use crate::protocol::ConfigResponseView;
use crate::response::AicResponseIo;
use crate::sdio::{AicCommandIo, BusOperation, log_extends};
use crate::transaction::{
    AicTransactionError, execute_config_command, received_response, round_trip, sent_command,
    spec_command_transfer, transaction_failure_stated, transaction_view,
};

verus! {

pub const MM_START_REQUEST: u16 = 2;

pub const MM_START_CONFIRM: u16 = 3;

pub const MM_ADD_INTERFACE_REQUEST: u16 = 6;

pub const MM_ADD_INTERFACE_CONFIRM: u16 = 7;

#[derive(Clone, Copy, Debug, Eq, PartialEq, Structural)]
pub struct RuntimeEncodeError {
    pub required: usize,
    pub available: usize,
}

#[derive(Clone, Copy, Debug, Eq, PartialEq, Structural)]
pub struct RuntimeDecodeError {
    pub required: usize,
    pub available: usize,
}

#[derive(Clone, Copy, Debug, Eq, PartialEq, Structural)]
pub struct AddInterfaceConfirmation {
    pub status: u8,
    pub interface_index: u8,
}

#[derive(Clone, Copy, Debug, Eq, PartialEq)]
pub enum AicRuntimeError<E> {
    Encode(RuntimeEncodeError),
    Decode(RuntimeDecodeError),
    Transaction(AicTransactionError<E>),
}

/// The 72-byte start parameter of the D80: no PHY or UAPSD settings, a 300 µs UAPSD
/// timeout and a 20 ms low-power clock accuracy.
pub open spec fn d80_start_parameters() -> Seq<u8> {
    zeros(64) + le32(300) + le16(20) + zeros(2)
}

/// Writes the D80 start parameter at the front of `output`.
pub fn encode_d80_start_parameters(output: &mut [u8]) -> (result: Result<usize, RuntimeEncodeError>)
    ensures
        old(output)@.len() < 72 ==> result == Err::<usize, RuntimeEncodeError>(
            RuntimeEncodeError { required: 72, available: old(output).len() },
        ) && final(output)@ == old(output)@,
        old(output)@.len() >= 72 ==> result == Ok::<usize, RuntimeEncodeError>(72) && final(output)@
            == d80_start_parameters() + old(output)@.skip(72),
{
    if output.len() < 72 {
        return Err(RuntimeEncodeError { required: 72, available: output.len() });
    }
    let mut parameter = [0u8; 72];
    parameter[64] = 0x2c;
    parameter[65] = 0x01;
    parameter[68] = 20;
    assert(parameter@ =~= d80_start_parameters());
    copy_prefix(output, &parameter);
    Ok(72)
}

/// The 10-byte parameter that adds a station interface with `mac_address`, not for
/// peer-to-peer use.
pub open spec fn station_interface_parameters(mac_address: Seq<u8>) -> Seq<u8> {
    seq![0u8, 0u8] + mac_address + seq![0u8, 0u8]
}

/// Writes the station interface parameter at the front of `output`.
pub fn encode_station_interface_parameters(output: &mut [u8], mac_address: [u8; 6]) -> (result:
    Result<usize, RuntimeEncodeError>)
    ensures
        old(output)@.len() < 10 ==> result == Err::<usize, RuntimeEncodeError>(
            RuntimeEncodeError { required: 10, available: old(output).len() },
        ) && final(output)@ == old(output)@,
        old(output)@.len() >= 10 ==> result == Ok::<usize, RuntimeEncodeError>(10) && final(output)@
            == station_interface_parameters(mac_address@) + old(output)@.skip(10),
{
    if output.len() < 10 {
        return Err(RuntimeEncodeError { required: 10, available: output.len() });
    }
    let parameter = [
        0,
        0,
        mac_address[0],
        mac_address[1],
        mac_address[2],
        mac_address[3],
        mac_address[4],
        mac_address[5],
        0,
        0,
    ];
    assert(parameter@ =~= station_interface_parameters(mac_address@));
    copy_prefix(output, &parameter);
    Ok(10)
}

/// The add-interface confirmation: status and interface index.
pub open spec fn spec_decode_add_interface(parameter: Seq<u8>) -> Result<
    AddInterfaceConfirmation,
    RuntimeDecodeError,
> {
    if parameter.len() < 2 {
        Err(RuntimeDecodeError { required: 2, available: parameter.len() as usize })
    } else {
        Ok(AddInterfaceConfirmation { status: parameter[0], interface_index: parameter[1] })
    }
}

/// Reads an add-interface confirmation.
pub fn decode_mm_add_interface_confirmation(parameter: &[u8]) -> (result: Result<
    AddInterfaceConfirmation,
    RuntimeDecodeError,
>)
    ensures
        result == spec_decode_add_interface(parameter@),
{
    if parameter.len() < 2 {
        return Err(RuntimeDecodeError { required: 2, available: parameter.len() });
    }
    Ok(AddInterfaceConfirmation { status: parameter[0], interface_index: parameter[1] })
}

/// Whether a management request `request_id` with `parameter` was sent within
/// `operations`.
pub open spec fn runtime_request_sent(
    product: Aic8800Product,
    operations: Seq<BusOperation>,
    request_id: u16,
    parameter: Seq<u8>,
) -> bool {
    sent_command(
        product,
        operations,
        spec_command_transfer(
            spec_command_header_mode(product),
            request_id,
            MM_TASK_ID,
            DRIVER_TASK_ID,
            parameter,
        ),
    )
}

/// Whether `received` holds a start confirmation.
pub open spec fn start_received(received: Seq<u8>) -> bool {
    exists|response: ConfigResponseView| #[trigger] received_response(received, MM_START_CONFIRM, response)
}

/// Whether `received` holds an add-interface confirmation that reads as `confirmation`.
pub open spec fn add_interface_received(received: Seq<u8>, confirmation: AddInterfaceConfirmation) -> bool {
    exists|response: ConfigResponseView|
        #[trigger] received_response(received, MM_ADD_INTERFACE_CONFIRM, response)
            && spec_decode_add_interface(response.parameter) == Ok::<
            AddInterfaceConfirmation,
            RuntimeDecodeError,
        >(confirmation)
}

/// Whether `result` is what a request returns for the round trip `outcome` whose
/// response's parameter decodes to `decoded`: the decoded value, the decode error, or the
/// round trip's own error.
pub open spec fn runtime_result<T, E>(
    outcome: Result<ConfigResponseView, AicTransactionError<E>>,
    decoded: Result<T, RuntimeDecodeError>,
    result: Result<T, AicRuntimeError<E>>,
) -> bool {
    match outcome {
        Ok(_) => match decoded {
            Ok(value) => result == Ok::<T, AicRuntimeError<E>>(value),
            Err(error) => result == Err::<T, AicRuntimeError<E>>(AicRuntimeError::Decode(error)),
        },
        Err(error) => result == Err::<T, AicRuntimeError<E>>(AicRuntimeError::Transaction(error)),
    }
}

/// The transaction error a runtime request ended with, if it ended with one.
pub open spec fn runtime_transaction_error<T, E>(result: Result<T, AicRuntimeError<E>>) -> Option<
    AicTransactionError<E>,
> {
    match result {
        Err(AicRuntimeError::Transaction(error)) => Some(error),
        _ => None,
    }
}

/// Whether `received` holds an add-interface confirmation whose decoding reports `error`.
pub open spec fn add_interface_refused(received: Seq<u8>, error: RuntimeDecodeError) -> bool {
    exists|response: ConfigResponseView|
        #[trigger] received_response(received, MM_ADD_INTERFACE_CONFIRM, response)
            && spec_decode_add_interface(response.parameter) == Err::<
            AddInterfaceConfirmation,
            RuntimeDecodeError,
        >(error)
}

/// A client that starts the MAC, over a device handle and the storage the round trips
/// use.
pub struct AicRuntimeClient<'a, I> {
    io: &'a mut I,
    product: Aic8800Product,
    parameter_storage: &'a mut [u8],
    transmit_storage: &'a mut [u8],
    receive_storage: &'a mut [u8],
    response_timeout_ms: u32,
}

impl<'a, I> AicRuntimeClient<'a, I> where
    I: AicCommandIo + AicResponseIo<Error = <I as AicCommandIo>::Error>,
 {
    /// The bus log of the device handle.
    pub closed spec fn io_log(&self) -> Seq<BusOperation> {
        self.io.bus_log()
    }

    pub closed spec fn product(&self) -> Aic8800Product {
        self.product
    }

    /// The bytes of parameter storage.
    pub closed spec fn parameter_capacity(&self) -> nat {
        self.parameter_storage@.len()
    }

    /// What receive storage holds.
    pub closed spec fn received(&self) -> Seq<u8> {
        self.receive_storage@
    }

    /// The bytes of transmit storage.
    pub closed spec fn transmit_capacity(&self) -> nat {
        self.transmit_storage@.len()
    }

    pub closed spec fn response_timeout(&self) -> u32 {
        self.response_timeout_ms
    }

    pub fn new(
        io: &'a mut I,
        product: Aic8800Product,
        parameter_storage: &'a mut [u8],
        transmit_storage: &'a mut [u8],
        receive_storage: &'a mut [u8],
        response_timeout_ms: u32,
    ) -> (client: Self)
        ensures
            client.product() == product,
            client.parameter_capacity() == old(parameter_storage)@.len(),
            client.transmit_capacity() == old(transmit_storage)@.len(),
            client.response_timeout() == response_timeout_ms,
    {
        AicRuntimeClient {
            io,
            product,
            parameter_storage,
            transmit_storage,
            receive_storage,
            response_timeout_ms,
        }
    }

    /// Starts the MAC with the D80 start parameter.
    #[verifier::rlimit(60)]
    pub fn start(&mut self) -> (result: Result<(), AicRuntimeError<<I as AicCommandIo>::Error>>)
        ensures
            final(self).product() == old(self).product(),
            final(self).parameter_capacity() == old(self).parameter_capacity(),
            log_extends(old(self).io_log(), final(self).io_log()),
            old(self).parameter_capacity() < 72 ==> result == Err::<
                (),
                AicRuntimeError<<I as AicCommandIo>::Error>,
            >(
                AicRuntimeError::Encode(
                    RuntimeEncodeError {
                        required: 72,
                        available: old(self).parameter_capacity() as usize,
                    },
                ),
            ),
            result matches Err(AicRuntimeError::Encode(_)) ==> old(self).parameter_capacity() < 72,
            final(self).transmit_capacity() == old(self).transmit_capacity(),
            final(self).response_timeout() == old(self).response_timeout(),
            old(self).parameter_capacity() >= 72 ==> transaction_failure_stated(
                old(self).product(),
                spec_command_transfer(
                    spec_command_header_mode(old(self).product()),
                    MM_START_REQUEST,
                    MM_TASK_ID,
                    DRIVER_TASK_ID,
                    d80_start_parameters(),
                ),
                72,
                old(self).transmit_capacity(),
                old(self).response_timeout(),
                final(self).io_log().skip(old(self).io_log().len() as int),
                runtime_transaction_error(result),
            ),
            result is Ok ==> runtime_request_sent(
                old(self).product(),
                final(self).io_log().skip(old(self).io_log().len() as int),
                MM_START_REQUEST,
                d80_start_parameters(),
            ) && start_received(final(self).received()),
            old(self).parameter_capacity() >= 72 ==> exists|outcome: Result<ConfigResponseView, AicTransactionError<<I as AicCommandIo>::Error>>|
                #[trigger] round_trip(
                    old(self).product(),
                    MM_START_REQUEST,
                    MM_TASK_ID,
                    DRIVER_TASK_ID,
                    d80_start_parameters(),
                    MM_START_CONFIRM,
                    old(self).transmit_capacity(),
                    old(self).response_timeout(),
                    final(self).io_log().skip(old(self).io_log().len() as int),
                    old(self).received(),
                    final(self).received(),
                    outcome,
                ) && runtime_result(outcome, Ok::<(), RuntimeDecodeError>(()), result),
    {
        let length = match encode_d80_start_parameters(self.parameter_storage) {
            Ok(length) => length,
            Err(error) => return Err(AicRuntimeError::Encode(error)),
        };
        assert(self.parameter_storage@.subrange(0, 72) =~= d80_start_parameters());
        let exchanged = execute_config_command(
            self.io,
            self.product,
            MM_START_REQUEST,
            MM_START_CONFIRM,
            MM_TASK_ID,
            DRIVER_TASK_ID,
            &self.parameter_storage[0..length],
            self.transmit_storage,
            self.receive_storage,
            self.response_timeout_ms,
        );
        let ghost outcome = transaction_view(exchanged);
        let result = match exchanged {
            Ok(response) => {
                assert(received_response(self.receive_storage@, MM_START_CONFIRM, response@));
                Ok(())
            },
            Err(error) => Err(AicRuntimeError::Transaction(error)),
        };
        proof {
            assert(round_trip(
                old(self).product(),
                MM_START_REQUEST,
                MM_TASK_ID,
                DRIVER_TASK_ID,
                d80_start_parameters(),
                MM_START_CONFIRM,
                old(self).transmit_capacity(),
                old(self).response_timeout(),
                self.io_log().skip(old(self).io_log().len() as int),
                old(self).received(),
                self.received(),
                outcome,
            ));
        }
        result
    }

    /// Adds the station interface with `mac_address`.
    #[verifier::rlimit(60)]
    pub fn add_station_interface(&mut self, mac_address: [u8; 6]) -> (result: Result<
        AddInterfaceConfirmation,
        AicRuntimeError<<I as AicCommandIo>::Error>,
    >)
        ensures
            final(self).product() == old(self).product(),
            final(self).parameter_capacity() == old(self).parameter_capacity(),
            log_extends(old(self).io_log(), final(self).io_log()),
            old(self).parameter_capacity() < 10 ==> result == Err::<
                AddInterfaceConfirmation,
                AicRuntimeError<<I as AicCommandIo>::Error>,
            >(
                AicRuntimeError::Encode(
                    RuntimeEncodeError {
                        required: 10,
                        available: old(self).parameter_capacity() as usize,
                    },
                ),
            ),
            result matches Err(AicRuntimeError::Encode(_)) ==> old(self).parameter_capacity() < 10,
            final(self).transmit_capacity() == old(self).transmit_capacity(),
            final(self).response_timeout() == old(self).response_timeout(),
            old(self).parameter_capacity() >= 10 ==> transaction_failure_stated(
                old(self).product(),
                spec_command_transfer(
                    spec_command_header_mode(old(self).product()),
                    MM_ADD_INTERFACE_REQUEST,
                    MM_TASK_ID,
                    DRIVER_TASK_ID,
                    station_interface_parameters(mac_address@),
                ),
                10,
                old(self).transmit_capacity(),
                old(self).response_timeout(),
                final(self).io_log().skip(old(self).io_log().len() as int),
                runtime_transaction_error(result),
            ),
            result matches Err(AicRuntimeError::Decode(error)) ==> runtime_request_sent(
                old(self).product(),
                final(self).io_log().skip(old(self).io_log().len() as int),
                MM_ADD_INTERFACE_REQUEST,
                station_interface_parameters(mac_address@),
            ) && add_interface_refused(final(self).received(), error),
            result matches Ok(confirmation) ==> runtime_request_sent(
                old(self).product(),
                final(self).io_log().skip(old(self).io_log().len() as int),
                MM_ADD_INTERFACE_REQUEST,
                station_interface_parameters(mac_address@),
            ) && add_interface_received(final(self).received(), confirmation),
            old(self).parameter_capacity() >= 10 ==> exists|outcome: Result<ConfigResponseView, AicTransactionError<<I as AicCommandIo>::Error>>|
                #[trigger] round_trip(
                    old(self).product(),
                    MM_ADD_INTERFACE_REQUEST,
                    MM_TASK_ID,
                    DRIVER_TASK_ID,
                    station_interface_parameters(mac_address@),
                    MM_ADD_INTERFACE_CONFIRM,
                    old(self).transmit_capacity(),
                    old(self).response_timeout(),
                    final(self).io_log().skip(old(self).io_log().len() as int),
                    old(self).received(),
                    final(self).received(),
                    outcome,
                ) && runtime_result(
                    outcome,
                    spec_decode_add_interface(outcome->Ok_0.parameter),
                    result,
                ),
    {
        let length = match encode_station_interface_parameters(self.parameter_storage, mac_address) {
            Ok(length) => length,
            Err(error) => return Err(AicRuntimeError::Encode(error)),
        };
        assert(self.parameter_storage@.subrange(0, 10) =~= station_interface_parameters(
            mac_address@,
        ));
        let exchanged = execute_config_command(
            self.io,
            self.product,
            MM_ADD_INTERFACE_REQUEST,
            MM_ADD_INTERFACE_CONFIRM,
            MM_TASK_ID,
            DRIVER_TASK_ID,
            &self.parameter_storage[0..length],
            self.transmit_storage,
            self.receive_storage,
            self.response_timeout_ms,
        );
        let ghost outcome = transaction_view(exchanged);
        let response = match exchanged {
            Ok(response) => response,
            Err(error) => {
                proof {
                    assert(round_trip(
                        old(self).product(),
                        MM_ADD_INTERFACE_REQUEST,
                        MM_TASK_ID,
                        DRIVER_TASK_ID,
                        station_interface_parameters(mac_address@),
                        MM_ADD_INTERFACE_CONFIRM,
                        old(self).transmit_capacity(),
                        old(self).response_timeout(),
                        self.io_log().skip(old(self).io_log().len() as int),
                        old(self).received(),
                        self.received(),
                        outcome,
                    ));
                }
                return Err(AicRuntimeError::Transaction(error));
            },
        };
        let result = match decode_mm_add_interface_confirmation(response.parameter) {
            Ok(confirmation) => {
                assert(received_response(self.receive_storage@, MM_ADD_INTERFACE_CONFIRM, response@));
                Ok(confirmation)
            },
            Err(error) => {
                assert(received_response(self.receive_storage@, MM_ADD_INTERFACE_CONFIRM, response@));
                Err(AicRuntimeError::Decode(error))
            },
        };
        proof {
            assert(round_trip(
                old(self).product(),
                MM_ADD_INTERFACE_REQUEST,
                MM_TASK_ID,
                DRIVER_TASK_ID,
                station_interface_parameters(mac_address@),
                MM_ADD_INTERFACE_CONFIRM,
                old(self).transmit_capacity(),
                old(self).response_timeout(),
                self.io_log().skip(old(self).io_log().len() as int),
                old(self).received(),
                self.received(),
                outcome,
            ));
        }
        result
    }
}

} // verus!
