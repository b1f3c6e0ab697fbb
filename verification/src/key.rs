//! Installing CCMP keys in the firmware: the pairwise key of the station and the group
//! key of the network.
use vstd::prelude::*;

use crate::bytes::zeros;
use crate::device::{Aic8800Product, spec_command_header_mode};
use crate::firmware::DRIVER_TASK_ID;
use crate::management::MM_TASK_ID;
use crate::protocol::ConfigResponseView;
use crate::response::AicResponseIo;
use crate::sdio::{AicCommandIo, BusOperation, CommandIoError, appended, log_extends};
use crate::transaction::{
    AicTransactionError, execute_config_command, received_response, round_trip, sent_command,
    spec_command_transfer, transaction_failure_stated, transaction_view,
};
use crate::wpa_crypto::zeroize_bytes;

verus! {

pub const MM_KEY_ADD_REQUEST: u16 = 36;

pub const MM_KEY_ADD_CONFIRM: u16 = 37;

/// The firmware's cipher number of CCMP.
const MAC_CIPHER_CCMP: u8 = 2;

#[derive(Clone, Copy, Debug, Eq, PartialEq, Structural)]
pub struct KeyAddConfirmation {
    pub status: u8,
    pub hardware_key_index: u8,
}

#[derive(Clone, Copy, Debug, Eq, PartialEq, Structural)]
pub enum KeyDecodeError {
    TruncatedConfirmation { required: usize, available: usize },
}

#[derive(Clone, Copy, Debug, Eq, PartialEq)]
pub enum AicKeyError<E> {
    Transaction(AicTransactionError<E>),
    Decode(KeyDecodeError),
}

/// The key-add confirmation: status and hardware key index.
pub open spec fn spec_decode_key_add_confirmation(parameter: Seq<u8>) -> Result<
    KeyAddConfirmation,
    KeyDecodeError,
> {
    if parameter.len() < 2 {
        Err(KeyDecodeError::TruncatedConfirmation { required: 2, available: parameter.len() as usize })
    } else {
        Ok(KeyAddConfirmation { status: parameter[0], hardware_key_index: parameter[1] })
    }
}

fn decode_key_add_confirmation(parameter: &[u8]) -> (result: Result<KeyAddConfirmation, KeyDecodeError>)
    ensures
        result == spec_decode_key_add_confirmation(parameter@),
{
    if parameter.len() < 2 {
        return Err(KeyDecodeError::TruncatedConfirmation { required: 2, available: parameter.len() });
    }
    Ok(KeyAddConfirmation { status: parameter[0], hardware_key_index: parameter[1] })
}

/// The 44-byte key-add parameter: key index, station index, key length 16, the key, then
/// the cipher, the interface and whether the key is pairwise.
pub open spec fn key_add_parameter(
    key_index: u8,
    station_index: u8,
    temporal_key: Seq<u8>,
    pairwise: bool,
    interface_index: u8,
) -> Seq<u8> {
    seq![key_index, station_index, 0u8, 0u8, 16u8, 0u8, 0u8, 0u8] + temporal_key + zeros(16) + seq![
        2u8,
        interface_index,
        0u8,
        if pairwise {
            1u8
        } else {
            0u8
        },
    ]
}

/// Whether `received` holds a key-add confirmation that decodes to `confirmation`.
pub open spec fn key_add_confirmed(received: Seq<u8>, confirmation: KeyAddConfirmation) -> bool {
    exists|response: ConfigResponseView|
        #[trigger] received_response(received, MM_KEY_ADD_CONFIRM, response)
            && spec_decode_key_add_confirmation(response.parameter) == Ok::<
            KeyAddConfirmation,
            KeyDecodeError,
        >(confirmation)
}

/// Whether `received` holds a key-add confirmation whose parameter has only `available`
/// bytes, too few to decode.
pub open spec fn key_add_truncated(received: Seq<u8>, available: usize) -> bool {
    &&& available < 2
    &&& exists|response: ConfigResponseView|
        #[trigger] received_response(received, MM_KEY_ADD_CONFIRM, response)
            && response.parameter.len() == available
}

/// What a key-add round trip with `parameter`, sent by a client for `product` whose
/// transmit storage holds `capacity` bytes and which waits `timeout` ms, may have done:
/// `operations` were performed and `received` was left in receive storage.
pub open spec fn key_add_outcome<E>(
    product: Aic8800Product,
    capacity: nat,
    timeout: u32,
    operations: Seq<BusOperation>,
    received: Seq<u8>,
    parameter: Seq<u8>,
    result: Result<KeyAddConfirmation, AicKeyError<E>>,
) -> bool {
    &&& transaction_failure_stated(
        product,
        spec_command_transfer(
            spec_command_header_mode(product),
            MM_KEY_ADD_REQUEST,
            MM_TASK_ID,
            DRIVER_TASK_ID,
            parameter,
        ),
        44,
        capacity,
        timeout,
        operations,
        match result {
            Err(AicKeyError::Transaction(error)) => Some(error),
            _ => None,
        },
    )
    &&& (result is Ok || result is Err && (result->Err_0 is Decode
        || result->Err_0 matches AicKeyError::Transaction(AicTransactionError::Receive(_))))
        ==> key_add_sent(product, operations, parameter)
    &&& result matches Ok(confirmation) ==> key_add_confirmed(received, confirmation)
    &&& result matches Err(AicKeyError::Decode(KeyDecodeError::TruncatedConfirmation { required, available }))
        ==> required == 2 && key_add_truncated(received, available)
}

/// Whether `result` is what a request returns for the round trip `outcome` whose
/// response's parameter decodes to `decoded`: the decoded value, the decode error, or the
/// round trip's own error.
pub open spec fn key_result<T, E>(
    outcome: Result<ConfigResponseView, AicTransactionError<E>>,
    decoded: Result<T, KeyDecodeError>,
    result: Result<T, AicKeyError<E>>,
) -> bool {
    match outcome {
        Ok(_) => match decoded {
            Ok(value) => result == Ok::<T, AicKeyError<E>>(value),
            Err(error) => result == Err::<T, AicKeyError<E>>(AicKeyError::Decode(error)),
        },
        Err(error) => result == Err::<T, AicKeyError<E>>(AicKeyError::Transaction(error)),
    }
}

/// Whether a key-add request with `parameter` was sent within `operations`.
pub open spec fn key_add_sent(
    product: Aic8800Product,
    operations: Seq<BusOperation>,
    parameter: Seq<u8>,
) -> bool {
    sent_command(
        product,
        operations,
        spec_command_transfer(
            spec_command_header_mode(product),
            MM_KEY_ADD_REQUEST,
            MM_TASK_ID,
            DRIVER_TASK_ID,
            parameter,
        ),
    )
}

/// A client that installs keys, over a device handle and the storage the round trips use.
pub struct AicKeyClient<'a, I> {
    io: &'a mut I,
    product: Aic8800Product,
    transmit_storage: &'a mut [u8],
    receive_storage: &'a mut [u8],
    response_timeout_ms: u32,
}

impl<'a, I> AicKeyClient<'a, I> where
    I: AicCommandIo + AicResponseIo<Error = <I as AicCommandIo>::Error>,
 {
    /// The bus log of the device handle.
    pub closed spec fn io_log(&self) -> Seq<BusOperation> {
        self.io.bus_log()
    }

    pub closed spec fn product(&self) -> Aic8800Product {
        self.product
    }

    /// What receive storage holds.
    pub closed spec fn received(&self) -> Seq<u8> {
        self.receive_storage@
    }

    /// The bytes of transmit storage.
    pub closed spec fn transmit_capacity(&self) -> nat {
        self.transmit_storage@.len()
    }

    pub closed spec fn response_timeout(&self) -> u32 {
        self.response_timeout_ms
    }

    pub fn new(
        io: &'a mut I,
        product: Aic8800Product,
        transmit_storage: &'a mut [u8],
        receive_storage: &'a mut [u8],
        response_timeout_ms: u32,
    ) -> (client: Self)
        ensures
            client.product() == product,
            client.transmit_capacity() == old(transmit_storage)@.len(),
            client.response_timeout() == response_timeout_ms,
    {
        AicKeyClient { io, product, transmit_storage, receive_storage, response_timeout_ms }
    }

    /// Installs the pairwise CCMP key of station `station_index` on interface
    /// `interface_index`.
    pub fn install_pairwise_ccmp(
        &mut self,
        interface_index: u8,
        station_index: u8,
        temporal_key: &[u8; 16],
    ) -> (result: Result<KeyAddConfirmation, AicKeyError<CommandIoError<I>>>)
        ensures
            final(self).product() == old(self).product(),
            log_extends(old(self).io_log(), final(self).io_log()),
            final(self).transmit_capacity() == old(self).transmit_capacity(),
            final(self).response_timeout() == old(self).response_timeout(),
            key_add_outcome(
                old(self).product(),
                old(self).transmit_capacity(),
                old(self).response_timeout(),
                appended(old(self).io_log(), final(self).io_log()),
                final(self).received(),
                key_add_parameter(0, station_index, temporal_key@, true, interface_index),
                result,
            ),
            exists|outcome: Result<ConfigResponseView, AicTransactionError<CommandIoError<I>>>|
                #[trigger] round_trip(
                    old(self).product(),
                    MM_KEY_ADD_REQUEST,
                    MM_TASK_ID,
                    DRIVER_TASK_ID,
                    key_add_parameter(0, station_index, temporal_key@, true, interface_index),
                    MM_KEY_ADD_CONFIRM,
                    old(self).transmit_capacity(),
                    old(self).response_timeout(),
                    appended(old(self).io_log(), final(self).io_log()),
                    old(self).received(),
                    final(self).received(),
                    outcome,
                ) && key_result(
                    outcome,
                    spec_decode_key_add_confirmation(outcome->Ok_0.parameter),
                    result,
                ),
    {
        self.install_key(interface_index, station_index, 0, true, temporal_key)
    }

    /// Installs the group CCMP key `key_index` of interface `interface_index`.
    pub fn install_group_ccmp(
        &mut self,
        interface_index: u8,
        key_index: u8,
        temporal_key: &[u8; 16],
    ) -> (result:
        Result<KeyAddConfirmation, AicKeyError<CommandIoError<I>>>)
        ensures
            final(self).product() == old(self).product(),
            log_extends(old(self).io_log(), final(self).io_log()),
            final(self).transmit_capacity() == old(self).transmit_capacity(),
            final(self).response_timeout() == old(self).response_timeout(),
            key_add_outcome(
                old(self).product(),
                old(self).transmit_capacity(),
                old(self).response_timeout(),
                appended(old(self).io_log(), final(self).io_log()),
                final(self).received(),
                key_add_parameter(key_index, 0xff, temporal_key@, false, interface_index),
                result,
            ),
            exists|outcome: Result<ConfigResponseView, AicTransactionError<CommandIoError<I>>>|
                #[trigger] round_trip(
                    old(self).product(),
                    MM_KEY_ADD_REQUEST,
                    MM_TASK_ID,
                    DRIVER_TASK_ID,
                    key_add_parameter(key_index, 0xff, temporal_key@, false, interface_index),
                    MM_KEY_ADD_CONFIRM,
                    old(self).transmit_capacity(),
                    old(self).response_timeout(),
                    appended(old(self).io_log(), final(self).io_log()),
                    old(self).received(),
                    final(self).received(),
                    outcome,
                ) && key_result(
                    outcome,
                    spec_decode_key_add_confirmation(outcome->Ok_0.parameter),
                    result,
                ),
    {
        self.install_key(interface_index, 0xff, key_index, false, temporal_key)
    }

    /// Sends one key-add request; the parameter holding the key is cleared afterwards.
    #[verifier::rlimit(60)]
    fn install_key(
        &mut self,
        interface_index: u8,
        station_index: u8,
        key_index: u8,
        pairwise: bool,
        temporal_key: &[u8; 16],
    ) -> (result: Result<KeyAddConfirmation, AicKeyError<CommandIoError<I>>>)
        ensures
            final(self).product() == old(self).product(),
            log_extends(old(self).io_log(), final(self).io_log()),
            final(self).transmit_capacity() == old(self).transmit_capacity(),
            final(self).response_timeout() == old(self).response_timeout(),
            key_add_outcome(
                old(self).product(),
                old(self).transmit_capacity(),
                old(self).response_timeout(),
                appended(old(self).io_log(), final(self).io_log()),
                final(self).received(),
                key_add_parameter(key_index, station_index, temporal_key@, pairwise, interface_index),
                result,
            ),
            exists|outcome: Result<ConfigResponseView, AicTransactionError<CommandIoError<I>>>|
                #[trigger] round_trip(
                    old(self).product(),
                    MM_KEY_ADD_REQUEST,
                    MM_TASK_ID,
                    DRIVER_TASK_ID,
                    key_add_parameter(key_index, station_index, temporal_key@, pairwise, interface_index),
                    MM_KEY_ADD_CONFIRM,
                    old(self).transmit_capacity(),
                    old(self).response_timeout(),
                    appended(old(self).io_log(), final(self).io_log()),
                    old(self).received(),
                    final(self).received(),
                    outcome,
                ) && key_result(
                    outcome,
                    spec_decode_key_add_confirmation(outcome->Ok_0.parameter),
                    result,
                ),
    {
        let mut parameter = [0u8; 44];
        parameter[0] = key_index;
        parameter[1] = station_index;
        parameter[4] = 16;
        let mut i: usize = 0;
        while i < 16
            invariant
                i <= 16,
                parameter@.len() == 44,
                forall|j: int| 0 <= j < i ==> parameter@[8 + j] == temporal_key@[j],
                forall|j: int|
                    0 <= j < 44 && !(8 <= j < 8 + i) && j != 0 && j != 1 && j != 4 ==> parameter@[j]
                        == 0,
                parameter@[0] == key_index,
                parameter@[1] == station_index,
                parameter@[4] == 16,
            decreases 16 - i,
        {
            parameter[8 + i] = temporal_key[i];
            i = i + 1;
        }
        parameter[40] = MAC_CIPHER_CCMP;
        parameter[41] = interface_index;
        parameter[43] = if pairwise {
            1
        } else {
            0
        };
        assert(parameter@ =~= key_add_parameter(
            key_index,
            station_index,
            temporal_key@,
            pairwise,
            interface_index,
        ));
        let response = execute_config_command(
            self.io,
            self.product,
            MM_KEY_ADD_REQUEST,
            MM_KEY_ADD_CONFIRM,
            MM_TASK_ID,
            DRIVER_TASK_ID,
            &parameter,
            self.transmit_storage,
            self.receive_storage,
            self.response_timeout_ms,
        );
        let ghost outcome = transaction_view(response);
        zeroize_bytes(&mut parameter);
        let response = match response {
            Ok(response) => response,
            Err(error) => {
                proof {
                    assert(round_trip(
                        old(self).product(),
                        MM_KEY_ADD_REQUEST,
                        MM_TASK_ID,
                        DRIVER_TASK_ID,
                        key_add_parameter(key_index, station_index, temporal_key@, pairwise, interface_index),
                        MM_KEY_ADD_CONFIRM,
                        old(self).transmit_capacity(),
                        old(self).response_timeout(),
                        appended(old(self).io_log(), self.io_log()),
                        old(self).received(),
                        self.received(),
                        outcome,
                    ));
                }
                return Err(AicKeyError::Transaction(error));
            },
        };
        let result = match decode_key_add_confirmation(response.parameter) {
            Ok(confirmation) => {
                assert(received_response(self.receive_storage@, MM_KEY_ADD_CONFIRM, response@));
                Ok(confirmation)
            },
            Err(error) => {
                assert(received_response(self.receive_storage@, MM_KEY_ADD_CONFIRM, response@));
                Err(AicKeyError::Decode(error))
            },
        };
        proof {
            assert(round_trip(
                old(self).product(),
                MM_KEY_ADD_REQUEST,
                MM_TASK_ID,
                DRIVER_TASK_ID,
                key_add_parameter(key_index, station_index, temporal_key@, pairwise, interface_index),
                MM_KEY_ADD_CONFIRM,
                old(self).transmit_capacity(),
                old(self).response_timeout(),
                appended(old(self).io_log(), self.io_log()),
                old(self).received(),
                self.received(),
                outcome,
            ));
        }
        result
    }
}

} // verus!
