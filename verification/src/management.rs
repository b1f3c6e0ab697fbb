//! Requests to the firmware's MAC management task: reset, version, MAC address, stack
//! start and the firmware build string.
use vstd::prelude::*;

use crate::bytes::{array6_at, le16_at, le32_at, read_le16, read_le32, usize_from_u8};
use crate::device::{Aic8800Product, spec_command_header_mode};
use crate::firmware::DRIVER_TASK_ID;
use crate::protocol::ConfigResponseView;
use crate::response::AicResponseIo;
use crate::sdio::{AicCommandIo, BusOperation, log_extends};
use crate::transaction::{
    AicTransactionError, execute_config_command, received_response, round_trip, sent_command,
    spec_command_transfer, transaction_failure_stated, transaction_view,
};

verus! {

/// Task identifier of the MAC management task.
pub const MM_TASK_ID: u16 = 0;

pub const MM_RESET_REQUEST: u16 = 0;

pub const MM_RESET_CONFIRM: u16 = 1;

pub const MM_VERSION_REQUEST: u16 = 4;

pub const MM_VERSION_CONFIRM: u16 = 5;

pub const MM_GET_MAC_ADDRESS_REQUEST: u16 = 115;

pub const MM_GET_MAC_ADDRESS_CONFIRM: u16 = 116;

pub const MM_SET_STACK_START_REQUEST: u16 = 123;

pub const MM_SET_STACK_START_CONFIRM: u16 = 124;

pub const MM_GET_FIRMWARE_VERSION_REQUEST: u16 = 128;

pub const MM_GET_FIRMWARE_VERSION_CONFIRM: u16 = 129;

#[derive(Clone, Copy, Debug, Eq, PartialEq, Structural)]
pub struct FirmwareVersion {
    pub version_lmac: u32,
    pub version_machw_1: u32,
    pub version_machw_2: u32,
    pub version_phy_1: u32,
    pub version_phy_2: u32,
    pub features: u32,
    pub max_sta_nb: u16,
    pub max_vif_nb: u8,
}

#[derive(Clone, Copy, Debug, Eq, PartialEq, Structural)]
pub struct StackStartConfirmation {
    pub supports_5ghz: bool,
    pub vendor_info: u8,
}

/// The firmware build string, at most 63 bytes.
#[derive(Clone, Copy, Debug, Eq, PartialEq)]
pub struct FirmwareBuildVersion {
    length: u8,
    bytes: [u8; 63],
}

impl View for FirmwareBuildVersion {
    type V = Seq<u8>;

    closed spec fn view(&self) -> Seq<u8> {
        self.bytes@.subrange(0, self.length as int)
    }
}

impl FirmwareBuildVersion {
    #[verifier::type_invariant]
    spec fn fits(self) -> bool {
        self.length <= 63
    }

    /// The build string.
    pub fn as_bytes(&self) -> (text: &[u8])
        ensures
            text@ == self@,
    {
        proof {
            use_type_invariant(self);
        }
        let length = usize_from_u8(self.length);
        &self.bytes[0..length]
    }
}

#[derive(Clone, Copy, Debug, Eq, PartialEq, Structural)]
pub enum ManagementDecodeError {
    TruncatedVersion { required: usize, available: usize },
    TruncatedMacAddress { required: usize, available: usize },
    TruncatedStackStart { required: usize, available: usize },
    FirmwareVersionTextTooLong { length: usize, capacity: usize },
    TruncatedFirmwareVersionText { required: usize, available: usize },
}

#[derive(Clone, Copy, Debug, Eq, PartialEq)]
pub enum AicManagementError<E> {
    Transaction(AicTransactionError<E>),
    Decode(ManagementDecodeError),
}

/// The version confirmation: five little-endian version words, the feature word, the
/// station and interface limits.
pub open spec fn spec_decode_version(parameter: Seq<u8>) -> Result<FirmwareVersion, ManagementDecodeError> {
    if parameter.len() < 27 {
        Err(
            ManagementDecodeError::TruncatedVersion {
                required: 27,
                available: parameter.len() as usize,
            },
        )
    } else {
        Ok(
            FirmwareVersion {
                version_lmac: le32_at(parameter, 0),
                version_machw_1: le32_at(parameter, 4),
                version_machw_2: le32_at(parameter, 8),
                version_phy_1: le32_at(parameter, 12),
                version_phy_2: le32_at(parameter, 16),
                features: le32_at(parameter, 20),
                max_sta_nb: le16_at(parameter, 24),
                max_vif_nb: parameter[26],
            },
        )
    }
}

/// Reads a version confirmation.
pub fn decode_mm_version_confirmation(parameter: &[u8]) -> (result: Result<
    FirmwareVersion,
    ManagementDecodeError,
>)
    ensures
        result == spec_decode_version(parameter@),
{
    if parameter.len() < 27 {
        return Err(ManagementDecodeError::TruncatedVersion { required: 27, available: parameter.len() });
    }
    Ok(
        FirmwareVersion {
            version_lmac: read_le32(parameter, 0),
            version_machw_1: read_le32(parameter, 4),
            version_machw_2: read_le32(parameter, 8),
            version_phy_1: read_le32(parameter, 12),
            version_phy_2: read_le32(parameter, 16),
            features: read_le32(parameter, 20),
            max_sta_nb: read_le16(parameter, 24),
            max_vif_nb: parameter[26],
        },
    )
}

/// The MAC address in its confirmation, as plain bytes.
pub open spec fn spec_decode_mac_address(parameter: Seq<u8>) -> Result<Seq<u8>, ManagementDecodeError> {
    if parameter.len() < 6 {
        Err(
            ManagementDecodeError::TruncatedMacAddress {
                required: 6,
                available: parameter.len() as usize,
            },
        )
    } else {
        Ok(parameter.subrange(0, 6))
    }
}

/// Reads a MAC address confirmation.
pub fn decode_mm_get_mac_address_confirmation(parameter: &[u8]) -> (result: Result<
    [u8; 6],
    ManagementDecodeError,
>)
    ensures
        match result {
            Ok(address) => spec_decode_mac_address(parameter@) == Ok::<
                Seq<u8>,
                ManagementDecodeError,
            >(address@),
            Err(error) => spec_decode_mac_address(parameter@) == Err::<
                Seq<u8>,
                ManagementDecodeError,
            >(error),
        },
{
    if parameter.len() < 6 {
        return Err(ManagementDecodeError::TruncatedMacAddress { required: 6, available: parameter.len() });
    }
    Ok(array6_at(parameter, 0))
}

/// The stack start confirmation: whether 5 GHz is supported, and vendor information.
pub open spec fn spec_decode_stack_start(parameter: Seq<u8>) -> Result<
    StackStartConfirmation,
    ManagementDecodeError,
> {
    if parameter.len() < 2 {
        Err(
            ManagementDecodeError::TruncatedStackStart {
                required: 2,
                available: parameter.len() as usize,
            },
        )
    } else {
        Ok(StackStartConfirmation { supports_5ghz: parameter[0] != 0, vendor_info: parameter[1] })
    }
}

/// Reads a stack start confirmation.
pub fn decode_mm_set_stack_start_confirmation(parameter: &[u8]) -> (result: Result<
    StackStartConfirmation,
    ManagementDecodeError,
>)
    ensures
        result == spec_decode_stack_start(parameter@),
{
    if parameter.len() < 2 {
        return Err(ManagementDecodeError::TruncatedStackStart { required: 2, available: parameter.len() });
    }
    Ok(StackStartConfirmation { supports_5ghz: parameter[0] != 0, vendor_info: parameter[1] })
}

/// The build string in a firmware version confirmation: a length byte of at most 63, then
/// the string.
pub open spec fn spec_decode_firmware_version(parameter: Seq<u8>) -> Result<
    Seq<u8>,
    ManagementDecodeError,
> {
    if parameter.len() == 0 {
        Err(ManagementDecodeError::TruncatedFirmwareVersionText { required: 1, available: 0 })
    } else if parameter[0] > 63 {
        Err(
            ManagementDecodeError::FirmwareVersionTextTooLong {
                length: parameter[0] as usize,
                capacity: 63,
            },
        )
    } else if parameter.len() < 1 + parameter[0] {
        Err(
            ManagementDecodeError::TruncatedFirmwareVersionText {
                required: (1 + parameter[0]) as usize,
                available: parameter.len() as usize,
            },
        )
    } else {
        Ok(parameter.subrange(1, 1 + parameter[0]))
    }
}

/// Reads a firmware version confirmation.
pub fn decode_mm_get_firmware_version_confirmation(parameter: &[u8]) -> (result: Result<
    FirmwareBuildVersion,
    ManagementDecodeError,
>)
    ensures
        match result {
            Ok(version) => spec_decode_firmware_version(parameter@) == Ok::<
                Seq<u8>,
                ManagementDecodeError,
            >(version@),
            Err(error) => spec_decode_firmware_version(parameter@) == Err::<
                Seq<u8>,
                ManagementDecodeError,
            >(error),
        },
{
    if parameter.len() == 0 {
        return Err(ManagementDecodeError::TruncatedFirmwareVersionText { required: 1, available: 0 });
    }
    let length = usize_from_u8(parameter[0]);
    if length > 63 {
        return Err(ManagementDecodeError::FirmwareVersionTextTooLong { length, capacity: 63 });
    }
    let required = 1 + length;
    if parameter.len() < required {
        return Err(
            ManagementDecodeError::TruncatedFirmwareVersionText {
                required,
                available: parameter.len(),
            },
        );
    }
    let mut bytes = [0u8; 63];
    let mut i: usize = 0;
    while i < length
        invariant
            i <= length,
            length <= 63,
            required == 1 + length,
            required <= parameter@.len(),
            bytes@.len() == 63,
            forall|j: int| 0 <= j < i ==> bytes@[j] == parameter@[1 + j],
        decreases length - i,
    {
        bytes[i] = parameter[1 + i];
        i = i + 1;
    }
    let version = FirmwareBuildVersion { length: parameter[0], bytes };
    assert(version@ =~= parameter@.subrange(1, 1 + parameter@[0]));
    Ok(version)
}

/// Whether a command `request_id` with `parameter` from the driver to the management
/// task was sent within `operations`.
pub open spec fn management_request_sent(
    product: Aic8800Product,
    operations: Seq<BusOperation>,
    request_id: u16,
    parameter: Seq<u8>,
) -> bool {
    sent_command(
        product,
        operations,
        spec_command_transfer(
            spec_command_header_mode(product),
            request_id,
            MM_TASK_ID,
            DRIVER_TASK_ID,
            parameter,
        ),
    )
}

/// Whether `received` holds a response `response_id`.
pub open spec fn confirmation_received(received: Seq<u8>, response_id: u16) -> bool {
    exists|response: ConfigResponseView| #[trigger] received_response(received, response_id, response)
}

/// Whether `received` holds a version confirmation that reads as `version`.
pub open spec fn version_received(received: Seq<u8>, version: FirmwareVersion) -> bool {
    exists|response: ConfigResponseView|
        #[trigger] received_response(received, MM_VERSION_CONFIRM, response) && spec_decode_version(
            response.parameter,
        ) == Ok::<FirmwareVersion, ManagementDecodeError>(version)
}

/// Whether `received` holds a MAC address confirmation that reads as `address`.
pub open spec fn mac_address_received(received: Seq<u8>, address: Seq<u8>) -> bool {
    exists|response: ConfigResponseView|
        #[trigger] received_response(received, MM_GET_MAC_ADDRESS_CONFIRM, response)
            && spec_decode_mac_address(response.parameter) == Ok::<Seq<u8>, ManagementDecodeError>(
            address,
        )
}

/// Whether `received` holds a stack start confirmation that reads as `confirmation`.
pub open spec fn stack_start_received(received: Seq<u8>, confirmation: StackStartConfirmation) -> bool {
    exists|response: ConfigResponseView|
        #[trigger] received_response(received, MM_SET_STACK_START_CONFIRM, response)
            && spec_decode_stack_start(response.parameter) == Ok::<
            StackStartConfirmation,
            ManagementDecodeError,
        >(confirmation)
}

/// Whether `received` holds a firmware version confirmation with build string `text`.
pub open spec fn build_version_received(received: Seq<u8>, text: Seq<u8>) -> bool {
    exists|response: ConfigResponseView|
        #[trigger] received_response(received, MM_GET_FIRMWARE_VERSION_CONFIRM, response)
            && spec_decode_firmware_version(response.parameter) == Ok::<
            Seq<u8>,
            ManagementDecodeError,
        >(text)
}

/// The parameter of the MAC address request: the address of the first interface.
pub open spec fn mac_address_request() -> Seq<u8> {
    seq![1u8, 0u8, 0u8, 0u8]
}

/// The parameter of the stack start request.
pub open spec fn stack_start_request() -> Seq<u8> {
    seq![1u8, 0u8, 0x20u8, 0u8]
}

/// The parameter of the firmware version request.
pub open spec fn firmware_version_request() -> Seq<u8> {
    seq![0u8]
}

/// Whether `result` is what a management request returns for the round trip `outcome`
/// whose response's parameter decodes to `decoded`: the decoded value, the decode error, or
/// the round trip's own error.
pub open spec fn management_result<T, E>(
    outcome: Result<ConfigResponseView, AicTransactionError<E>>,
    decoded: Result<T, ManagementDecodeError>,
    result: Result<T, AicManagementError<E>>,
) -> bool {
    match outcome {
        Ok(_) => match decoded {
            Ok(value) => result == Ok::<T, AicManagementError<E>>(value),
            Err(error) => result == Err::<T, AicManagementError<E>>(AicManagementError::Decode(error)),
        },
        Err(error) => result == Err::<T, AicManagementError<E>>(AicManagementError::Transaction(error)),
    }
}

/// A result read back through the view of the value it carries.
pub open spec fn result_view<T: View, E>(result: Result<T, AicManagementError<E>>) -> Result<
    T::V,
    AicManagementError<E>,
> {
    match result {
        Ok(value) => Ok(value@),
        Err(error) => Err(error),
    }
}

/// The transaction error a management request ended with, if it ended with one.
pub open spec fn management_transaction_error<T, E>(result: Result<T, AicManagementError<E>>) -> Option<
    AicTransactionError<E>,
> {
    match result {
        Err(AicManagementError::Transaction(error)) => Some(error),
        _ => None,
    }
}

/// Whether `received` holds a response `response_id` whose parameter `decodes` refuses
/// with `error`.
pub open spec fn confirmation_refused(
    received: Seq<u8>,
    response_id: u16,
    error: ManagementDecodeError,
    decodes: spec_fn(Seq<u8>) -> Option<ManagementDecodeError>,
) -> bool {
    exists|response: ConfigResponseView|
        #[trigger] received_response(received, response_id, response) && decodes(response.parameter)
            == Some(error)
}

/// The error of a version confirmation, if it has one.
pub open spec fn version_error(parameter: Seq<u8>) -> Option<ManagementDecodeError> {
    match spec_decode_version(parameter) {
        Err(error) => Some(error),
        Ok(_) => None,
    }
}

/// The error of a MAC address confirmation, if it has one.
pub open spec fn mac_address_error(parameter: Seq<u8>) -> Option<ManagementDecodeError> {
    match spec_decode_mac_address(parameter) {
        Err(error) => Some(error),
        Ok(_) => None,
    }
}

/// The error of a stack start confirmation, if it has one.
pub open spec fn stack_start_error(parameter: Seq<u8>) -> Option<ManagementDecodeError> {
    match spec_decode_stack_start(parameter) {
        Err(error) => Some(error),
        Ok(_) => None,
    }
}

/// The error of a firmware version confirmation, if it has one.
pub open spec fn build_version_error(parameter: Seq<u8>) -> Option<ManagementDecodeError> {
    match spec_decode_firmware_version(parameter) {
        Err(error) => Some(error),
        Ok(_) => None,
    }
}

/// A client of the management task over a device handle and the storage the round trips
/// use.
pub struct AicManagementClient<'a, I> {
    io: &'a mut I,
    product: Aic8800Product,
    transmit_storage: &'a mut [u8],
    receive_storage: &'a mut [u8],
    response_timeout_ms: u32,
}

impl<'a, I> AicManagementClient<'a, I> where
    I: AicCommandIo + AicResponseIo<Error = <I as AicCommandIo>::Error>,
 {
    /// The bus log of the device handle.
    pub closed spec fn io_log(&self) -> Seq<BusOperation> {
        self.io.bus_log()
    }

    pub closed spec fn product(&self) -> Aic8800Product {
        self.product
    }

    /// What receive storage holds.
    pub closed spec fn received(&self) -> Seq<u8> {
        self.receive_storage@
    }

    /// The bytes of transmit storage.
    pub closed spec fn transmit_capacity(&self) -> nat {
        self.transmit_storage@.len()
    }

    pub closed spec fn response_timeout(&self) -> u32 {
        self.response_timeout_ms
    }

    pub fn new(
        io: &'a mut I,
        product: Aic8800Product,
        transmit_storage: &'a mut [u8],
        receive_storage: &'a mut [u8],
        response_timeout_ms: u32,
    ) -> (client: Self)
        ensures
            client.product() == product,
            client.transmit_capacity() == old(transmit_storage)@.len(),
            client.response_timeout() == response_timeout_ms,
    {
        AicManagementClient { io, product, transmit_storage, receive_storage, response_timeout_ms }
    }

    /// Resets the MAC.
    #[verifier::rlimit(60)]
    pub fn reset(&mut self) -> (result: Result<(), AicManagementError<<I as AicCommandIo>::Error>>)
        ensures
            final(self).product() == old(self).product(),
            log_extends(old(self).io_log(), final(self).io_log()),
            result is Ok ==> management_request_sent(
                old(self).product(),
                final(self).io_log().skip(old(self).io_log().len() as int),
                MM_RESET_REQUEST,
                Seq::empty(),
            ) && confirmation_received(final(self).received(), MM_RESET_CONFIRM),
            final(self).transmit_capacity() == old(self).transmit_capacity(),
            final(self).response_timeout() == old(self).response_timeout(),
            transaction_failure_stated(
                old(self).product(),
                spec_command_transfer(
                    spec_command_header_mode(old(self).product()),
                    MM_RESET_REQUEST,
                    MM_TASK_ID,
                    DRIVER_TASK_ID,
                    Seq::empty(),
                ),
                0,
                old(self).transmit_capacity(),
                old(self).response_timeout(),
                final(self).io_log().skip(old(self).io_log().len() as int),
                management_transaction_error(result),
            ),
            exists|outcome: Result<ConfigResponseView, AicTransactionError<<I as AicCommandIo>::Error>>|
                #[trigger] round_trip(
                    old(self).product(),
                    MM_RESET_REQUEST,
                    MM_TASK_ID,
                    DRIVER_TASK_ID,
                    Seq::empty(),
                    MM_RESET_CONFIRM,
                    old(self).transmit_capacity(),
                    old(self).response_timeout(),
                    final(self).io_log().skip(old(self).io_log().len() as int),
                    old(self).received(),
                    final(self).received(),
                    outcome,
                ) && management_result(outcome, Ok::<(), ManagementDecodeError>(()), result),
            result is Err ==> result->Err_0 is Transaction,
    {
        let parameter: [u8; 0] = [];
        assert(parameter@ =~= Seq::<u8>::empty());
        let exchanged = execute_config_command(
            self.io,
            self.product,
            MM_RESET_REQUEST,
            MM_RESET_CONFIRM,
            MM_TASK_ID,
            DRIVER_TASK_ID,
            &parameter,
            self.transmit_storage,
            self.receive_storage,
            self.response_timeout_ms,
        );
        let ghost outcome = transaction_view(exchanged);
        let result = match exchanged {
            Ok(response) => {
                assert(received_response(self.receive_storage@, MM_RESET_CONFIRM, response@));
                Ok(())
            },
            Err(error) => Err(AicManagementError::Transaction(error)),
        };
        proof {
            assert(round_trip(
                old(self).product(),
                MM_RESET_REQUEST,
                MM_TASK_ID,
                DRIVER_TASK_ID,
                Seq::empty(),
                MM_RESET_CONFIRM,
                old(self).transmit_capacity(),
                old(self).response_timeout(),
                self.io_log().skip(old(self).io_log().len() as int),
                old(self).received(),
                self.received(),
                outcome,
            ));
        }
        result
    }

    /// Reads the firmware and hardware versions.
    #[verifier::rlimit(60)]
    pub fn read_version(&mut self) -> (result: Result<
        FirmwareVersion,
        AicManagementError<<I as AicCommandIo>::Error>,
    >)
        ensures
            final(self).product() == old(self).product(),
            log_extends(old(self).io_log(), final(self).io_log()),
            result matches Ok(version) ==> management_request_sent(
                old(self).product(),
                final(self).io_log().skip(old(self).io_log().len() as int),
                MM_VERSION_REQUEST,
                Seq::empty(),
            ) && version_received(final(self).received(), version),
            final(self).transmit_capacity() == old(self).transmit_capacity(),
            final(self).response_timeout() == old(self).response_timeout(),
            transaction_failure_stated(
                old(self).product(),
                spec_command_transfer(
                    spec_command_header_mode(old(self).product()),
                    MM_VERSION_REQUEST,
                    MM_TASK_ID,
                    DRIVER_TASK_ID,
                    Seq::empty(),
                ),
                0,
                old(self).transmit_capacity(),
                old(self).response_timeout(),
                final(self).io_log().skip(old(self).io_log().len() as int),
                management_transaction_error(result),
            ),
            exists|outcome: Result<ConfigResponseView, AicTransactionError<<I as AicCommandIo>::Error>>|
                #[trigger] round_trip(
                    old(self).product(),
                    MM_VERSION_REQUEST,
                    MM_TASK_ID,
                    DRIVER_TASK_ID,
                    Seq::empty(),
                    MM_VERSION_CONFIRM,
                    old(self).transmit_capacity(),
                    old(self).response_timeout(),
                    final(self).io_log().skip(old(self).io_log().len() as int),
                    old(self).received(),
                    final(self).received(),
                    outcome,
                ) && management_result(
                    outcome,
                    spec_decode_version(outcome->Ok_0.parameter),
                    result,
                ),
            result matches Err(AicManagementError::Decode(error)) ==> management_request_sent(
                old(self).product(),
                final(self).io_log().skip(old(self).io_log().len() as int),
                MM_VERSION_REQUEST,
                Seq::empty(),
            ) && confirmation_refused(
                final(self).received(),
                MM_VERSION_CONFIRM,
                error,
                (|parameter: Seq<u8>| version_error(parameter)),
            ),
    {
        let parameter: [u8; 0] = [];
        assert(parameter@ =~= Seq::<u8>::empty());
        let exchanged = execute_config_command(
            self.io,
            self.product,
            MM_VERSION_REQUEST,
            MM_VERSION_CONFIRM,
            MM_TASK_ID,
            DRIVER_TASK_ID,
            &parameter,
            self.transmit_storage,
            self.receive_storage,
            self.response_timeout_ms,
        );
        let ghost outcome = transaction_view(exchanged);
        let response = match exchanged {
            Ok(response) => response,
            Err(error) => {
                proof {
                    assert(round_trip(
                        old(self).product(),
                        MM_VERSION_REQUEST,
                        MM_TASK_ID,
                        DRIVER_TASK_ID,
                        Seq::empty(),
                        MM_VERSION_CONFIRM,
                        old(self).transmit_capacity(),
                        old(self).response_timeout(),
                        self.io_log().skip(old(self).io_log().len() as int),
                        old(self).received(),
                        self.received(),
                        outcome,
                    ));
                }
                return Err(AicManagementError::Transaction(error));
            },
        };
        let result = match decode_mm_version_confirmation(response.parameter) {
            Ok(version) => {
                assert(received_response(self.receive_storage@, MM_VERSION_CONFIRM, response@));
                Ok(version)
            },
            Err(error) => {
                assert(received_response(self.receive_storage@, MM_VERSION_CONFIRM, response@));
                Err(AicManagementError::Decode(error))
            },
        };
        proof {
            assert(round_trip(
                old(self).product(),
                MM_VERSION_REQUEST,
                MM_TASK_ID,
                DRIVER_TASK_ID,
                Seq::empty(),
                MM_VERSION_CONFIRM,
                old(self).transmit_capacity(),
                old(self).response_timeout(),
                self.io_log().skip(old(self).io_log().len() as int),
                old(self).received(),
                self.received(),
                outcome,
            ));
        }
        result
    }

    /// Reads the MAC address of the first interface.
    #[verifier::rlimit(60)]
    pub fn read_mac_address(&mut self) -> (result: Result<
        [u8; 6],
        AicManagementError<<I as AicCommandIo>::Error>,
    >)
        ensures
            final(self).product() == old(self).product(),
            log_extends(old(self).io_log(), final(self).io_log()),
            result matches Ok(address) ==> management_request_sent(
                old(self).product(),
                final(self).io_log().skip(old(self).io_log().len() as int),
                MM_GET_MAC_ADDRESS_REQUEST,
                seq![1u8, 0u8, 0u8, 0u8],
            ) && mac_address_received(final(self).received(), address@),
            final(self).transmit_capacity() == old(self).transmit_capacity(),
            final(self).response_timeout() == old(self).response_timeout(),
            transaction_failure_stated(
                old(self).product(),
                spec_command_transfer(
                    spec_command_header_mode(old(self).product()),
                    MM_GET_MAC_ADDRESS_REQUEST,
                    MM_TASK_ID,
                    DRIVER_TASK_ID,
                    mac_address_request(),
                ),
                4,
                old(self).transmit_capacity(),
                old(self).response_timeout(),
                final(self).io_log().skip(old(self).io_log().len() as int),
                management_transaction_error(result),
            ),
            exists|outcome: Result<ConfigResponseView, AicTransactionError<<I as AicCommandIo>::Error>>|
                #[trigger] round_trip(
                    old(self).product(),
                    MM_GET_MAC_ADDRESS_REQUEST,
                    MM_TASK_ID,
                    DRIVER_TASK_ID,
                    mac_address_request(),
                    MM_GET_MAC_ADDRESS_CONFIRM,
                    old(self).transmit_capacity(),
                    old(self).response_timeout(),
                    final(self).io_log().skip(old(self).io_log().len() as int),
                    old(self).received(),
                    final(self).received(),
                    outcome,
                ) && management_result(
                    outcome,
                    spec_decode_mac_address(outcome->Ok_0.parameter),
                    result_view(result),
                ),
            result matches Err(AicManagementError::Decode(error)) ==> management_request_sent(
                old(self).product(),
                final(self).io_log().skip(old(self).io_log().len() as int),
                MM_GET_MAC_ADDRESS_REQUEST,
                seq![1u8, 0u8, 0u8, 0u8],
            ) && confirmation_refused(
                final(self).received(),
                MM_GET_MAC_ADDRESS_CONFIRM,
                error,
                (|parameter: Seq<u8>| mac_address_error(parameter)),
            ),
    {
        let parameter: [u8; 4] = [1, 0, 0, 0];
        assert(parameter@ =~= seq![1u8, 0u8, 0u8, 0u8]);
        let exchanged = execute_config_command(
            self.io,
            self.product,
            MM_GET_MAC_ADDRESS_REQUEST,
            MM_GET_MAC_ADDRESS_CONFIRM,
            MM_TASK_ID,
            DRIVER_TASK_ID,
            &parameter,
            self.transmit_storage,
            self.receive_storage,
            self.response_timeout_ms,
        );
        let ghost outcome = transaction_view(exchanged);
        let response = match exchanged {
            Ok(response) => response,
            Err(error) => {
                proof {
                    assert(round_trip(
                        old(self).product(),
                        MM_GET_MAC_ADDRESS_REQUEST,
                        MM_TASK_ID,
                        DRIVER_TASK_ID,
                        mac_address_request(),
                        MM_GET_MAC_ADDRESS_CONFIRM,
                        old(self).transmit_capacity(),
                        old(self).response_timeout(),
                        self.io_log().skip(old(self).io_log().len() as int),
                        old(self).received(),
                        self.received(),
                        outcome,
                    ));
                }
                return Err(AicManagementError::Transaction(error));
            },
        };
        let result = match decode_mm_get_mac_address_confirmation(response.parameter) {
            Ok(address) => {
                assert(received_response(self.receive_storage@, MM_GET_MAC_ADDRESS_CONFIRM, response@));
                Ok(address)
            },
            Err(error) => {
                assert(received_response(self.receive_storage@, MM_GET_MAC_ADDRESS_CONFIRM, response@));
                Err(AicManagementError::Decode(error))
            },
        };
        proof {
            assert(round_trip(
                old(self).product(),
                MM_GET_MAC_ADDRESS_REQUEST,
                MM_TASK_ID,
                DRIVER_TASK_ID,
                mac_address_request(),
                MM_GET_MAC_ADDRESS_CONFIRM,
                old(self).transmit_capacity(),
                old(self).response_timeout(),
                self.io_log().skip(old(self).io_log().len() as int),
                old(self).received(),
                self.received(),
                outcome,
            ));
        }
        result
    }

    /// Starts the D80 protocol stack.
    #[verifier::rlimit(60)]
    pub fn start_d80_stack(&mut self) -> (result: Result<
        StackStartConfirmation,
        AicManagementError<<I as AicCommandIo>::Error>,
    >)
        ensures
            final(self).product() == old(self).product(),
            log_extends(old(self).io_log(), final(self).io_log()),
            result matches Ok(confirmation) ==> management_request_sent(
                old(self).product(),
                final(self).io_log().skip(old(self).io_log().len() as int),
                MM_SET_STACK_START_REQUEST,
                seq![1u8, 0u8, 0x20u8, 0u8],
            ) && stack_start_received(final(self).received(), confirmation),
            final(self).transmit_capacity() == old(self).transmit_capacity(),
            final(self).response_timeout() == old(self).response_timeout(),
            transaction_failure_stated(
                old(self).product(),
                spec_command_transfer(
                    spec_command_header_mode(old(self).product()),
                    MM_SET_STACK_START_REQUEST,
                    MM_TASK_ID,
                    DRIVER_TASK_ID,
                    stack_start_request(),
                ),
                4,
                old(self).transmit_capacity(),
                old(self).response_timeout(),
                final(self).io_log().skip(old(self).io_log().len() as int),
                management_transaction_error(result),
            ),
            exists|outcome: Result<ConfigResponseView, AicTransactionError<<I as AicCommandIo>::Error>>|
                #[trigger] round_trip(
                    old(self).product(),
                    MM_SET_STACK_START_REQUEST,
                    MM_TASK_ID,
                    DRIVER_TASK_ID,
                    stack_start_request(),
                    MM_SET_STACK_START_CONFIRM,
                    old(self).transmit_capacity(),
                    old(self).response_timeout(),
                    final(self).io_log().skip(old(self).io_log().len() as int),
                    old(self).received(),
                    final(self).received(),
                    outcome,
                ) && management_result(
                    outcome,
                    spec_decode_stack_start(outcome->Ok_0.parameter),
                    result,
                ),
            result matches Err(AicManagementError::Decode(error)) ==> management_request_sent(
                old(self).product(),
                final(self).io_log().skip(old(self).io_log().len() as int),
                MM_SET_STACK_START_REQUEST,
                seq![1u8, 0u8, 0x20u8, 0u8],
            ) && confirmation_refused(
                final(self).received(),
                MM_SET_STACK_START_CONFIRM,
                error,
                (|parameter: Seq<u8>| stack_start_error(parameter)),
            ),
    {
        let parameter: [u8; 4] = [1, 0, 0x20, 0];
        assert(parameter@ =~= seq![1u8, 0u8, 0x20u8, 0u8]);
        let exchanged = execute_config_command(
            self.io,
            self.product,
            MM_SET_STACK_START_REQUEST,
            MM_SET_STACK_START_CONFIRM,
            MM_TASK_ID,
            DRIVER_TASK_ID,
            &parameter,
            self.transmit_storage,
            self.receive_storage,
            self.response_timeout_ms,
        );
        let ghost outcome = transaction_view(exchanged);
        let response = match exchanged {
            Ok(response) => response,
            Err(error) => {
                proof {
                    assert(round_trip(
                        old(self).product(),
                        MM_SET_STACK_START_REQUEST,
                        MM_TASK_ID,
                        DRIVER_TASK_ID,
                        stack_start_request(),
                        MM_SET_STACK_START_CONFIRM,
                        old(self).transmit_capacity(),
                        old(self).response_timeout(),
                        self.io_log().skip(old(self).io_log().len() as int),
                        old(self).received(),
                        self.received(),
                        outcome,
                    ));
                }
                return Err(AicManagementError::Transaction(error));
            },
        };
        let result = match decode_mm_set_stack_start_confirmation(response.parameter) {
            Ok(confirmation) => {
                assert(received_response(self.receive_storage@, MM_SET_STACK_START_CONFIRM, response@));
                Ok(confirmation)
            },
            Err(error) => {
                assert(received_response(self.receive_storage@, MM_SET_STACK_START_CONFIRM, response@));
                Err(AicManagementError::Decode(error))
            },
        };
        proof {
            assert(round_trip(
                old(self).product(),
                MM_SET_STACK_START_REQUEST,
                MM_TASK_ID,
                DRIVER_TASK_ID,
                stack_start_request(),
                MM_SET_STACK_START_CONFIRM,
                old(self).transmit_capacity(),
                old(self).response_timeout(),
                self.io_log().skip(old(self).io_log().len() as int),
                old(self).received(),
                self.received(),
                outcome,
            ));
        }
        result
    }

    /// Reads the firmware build string.
    #[verifier::rlimit(60)]
    pub fn read_firmware_build_version(&mut self) -> (result: Result<
        FirmwareBuildVersion,
        AicManagementError<<I as AicCommandIo>::Error>,
    >)
        ensures
            final(self).product() == old(self).product(),
            log_extends(old(self).io_log(), final(self).io_log()),
            result matches Ok(version) ==> management_request_sent(
                old(self).product(),
                final(self).io_log().skip(old(self).io_log().len() as int),
                MM_GET_FIRMWARE_VERSION_REQUEST,
                seq![0u8],
            ) && build_version_received(final(self).received(), version@),
            final(self).transmit_capacity() == old(self).transmit_capacity(),
            final(self).response_timeout() == old(self).response_timeout(),
            transaction_failure_stated(
                old(self).product(),
                spec_command_transfer(
                    spec_command_header_mode(old(self).product()),
                    MM_GET_FIRMWARE_VERSION_REQUEST,
                    MM_TASK_ID,
                    DRIVER_TASK_ID,
                    firmware_version_request(),
                ),
                1,
                old(self).transmit_capacity(),
                old(self).response_timeout(),
                final(self).io_log().skip(old(self).io_log().len() as int),
                management_transaction_error(result),
            ),
            exists|outcome: Result<ConfigResponseView, AicTransactionError<<I as AicCommandIo>::Error>>|
                #[trigger] round_trip(
                    old(self).product(),
                    MM_GET_FIRMWARE_VERSION_REQUEST,
                    MM_TASK_ID,
                    DRIVER_TASK_ID,
                    firmware_version_request(),
                    MM_GET_FIRMWARE_VERSION_CONFIRM,
                    old(self).transmit_capacity(),
                    old(self).response_timeout(),
                    final(self).io_log().skip(old(self).io_log().len() as int),
                    old(self).received(),
                    final(self).received(),
                    outcome,
                ) && management_result(
                    outcome,
                    spec_decode_firmware_version(outcome->Ok_0.parameter),
                    result_view(result),
                ),
            result matches Err(AicManagementError::Decode(error)) ==> management_request_sent(
                old(self).product(),
                final(self).io_log().skip(old(self).io_log().len() as int),
                MM_GET_FIRMWARE_VERSION_REQUEST,
                seq![0u8],
            ) && confirmation_refused(
                final(self).received(),
                MM_GET_FIRMWARE_VERSION_CONFIRM,
                error,
                (|parameter: Seq<u8>| build_version_error(parameter)),
            ),
    {
        let parameter: [u8; 1] = [0];
        assert(parameter@ =~= seq![0u8]);
        let exchanged = execute_config_command(
            self.io,
            self.product,
            MM_GET_FIRMWARE_VERSION_REQUEST,
            MM_GET_FIRMWARE_VERSION_CONFIRM,
            MM_TASK_ID,
            DRIVER_TASK_ID,
            &parameter,
            self.transmit_storage,
            self.receive_storage,
            self.response_timeout_ms,
        );
        let ghost outcome = transaction_view(exchanged);
        let response = match exchanged {
            Ok(response) => response,
            Err(error) => {
                proof {
                    assert(round_trip(
                        old(self).product(),
                        MM_GET_FIRMWARE_VERSION_REQUEST,
                        MM_TASK_ID,
                        DRIVER_TASK_ID,
                        firmware_version_request(),
                        MM_GET_FIRMWARE_VERSION_CONFIRM,
                        old(self).transmit_capacity(),
                        old(self).response_timeout(),
                        self.io_log().skip(old(self).io_log().len() as int),
                        old(self).received(),
                        self.received(),
                        outcome,
                    ));
                }
                return Err(AicManagementError::Transaction(error));
            },
        };
        let result = match decode_mm_get_firmware_version_confirmation(response.parameter) {
            Ok(version) => {
                assert(received_response(
                    self.receive_storage@,
                    MM_GET_FIRMWARE_VERSION_CONFIRM,
                    response@,
                ));
                Ok(version)
            },
            Err(error) => {
                assert(received_response(self.receive_storage@, MM_GET_FIRMWARE_VERSION_CONFIRM, response@));
                Err(AicManagementError::Decode(error))
            },
        };
        proof {
            assert(round_trip(
                old(self).product(),
                MM_GET_FIRMWARE_VERSION_REQUEST,
                MM_TASK_ID,
                DRIVER_TASK_ID,
                firmware_version_request(),
                MM_GET_FIRMWARE_VERSION_CONFIRM,
                old(self).transmit_capacity(),
                old(self).response_timeout(),
                self.io_log().skip(old(self).io_log().len() as int),
                old(self).received(),
                self.received(),
                outcome,
            ));
        }
        result
    }
}

} // verus!
