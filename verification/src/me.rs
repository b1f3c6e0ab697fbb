//! Requests to the firmware's management entity: the D80 board capabilities, the
//! channel list, and opening the control port of a station.
use vstd::prelude::*;

use crate::bytes::{copy_prefix, le16, le32, push_le16, push_le32, push_slice, push_zeros, zeros};
use crate::device::{Aic8800Product, spec_command_header_mode};
use crate::firmware::DRIVER_TASK_ID;
use crate::protocol::ConfigResponseView;
use crate::response::{AicResponseError, AicResponseIo};
use crate::sdio::{AicCommandIo, BusOperation, CommandIoError, appended, log_extends};
use crate::transaction::{
    AicTransactionError, execute_config_command, received_response, round_trip, sent_command,
    spec_command_framing_error, spec_command_transfer, transaction_failure_stated,
    transaction_view,
};

verus! {

/// Task identifier of the management entity.
pub const ME_TASK_ID: u16 = 5;

pub const ME_CONFIG_REQUEST: u16 = 0x1400;

pub const ME_CONFIG_CONFIRM: u16 = 0x1401;

pub const ME_CHANNEL_CONFIG_REQUEST: u16 = 0x1402;

pub const ME_CHANNEL_CONFIG_CONFIRM: u16 = 0x1403;

pub const ME_SET_CONTROL_PORT_REQUEST: u16 = 0x1404;

pub const ME_SET_CONTROL_PORT_CONFIRM: u16 = 0x1405;

/// The 2.4 GHz channel frequencies, in MHz.
const CHANNELS_2GHZ: [u16; 14] = [
    2412, 2417, 2422, 2427, 2432, 2437, 2442, 2447, 2452, 2457, 2462, 2467, 2472, 2484,
];

/// The 5 GHz channel frequencies, in MHz.
const CHANNELS_5GHZ: [u16; 25] = [
    5180, 5200, 5220, 5240, 5260, 5280, 5300, 5320, 5500, 5520, 5540, 5560, 5580, 5600, 5620,
    5640, 5660, 5680, 5700, 5720, 5745, 5765, 5785, 5805, 5825,
];

#[derive(Clone, Copy, Debug, Eq, PartialEq, Structural)]
pub struct MeEncodeError {
    pub required: usize,
    pub available: usize,
}

#[derive(Clone, Copy, Debug, Eq, PartialEq)]
pub enum AicMeError<E> {
    Encode(MeEncodeError),
    Transaction(AicTransactionError<E>),
}

/// The 112-byte management entity configuration of the D80 board: HT, VHT and HE
/// capabilities, then the timing, bandwidth and feature flags.
pub open spec fn d80_board_me_config() -> Seq<u8> {
    le16(0x0963) + seq![0x1fu8] + seq![
        0xffu8, 0, 0, 0, 1, 0, 0, 0, 0, 0, 0x96, 0, 1, 0, 0, 0,
    ] + zeros(13) + le32(0x0398_7131) + le16(0xfffe) + le16(390) + le16(0xfffe) + le16(390)
        + seq![0x00u8, 0x00, 0x02, 0x00, 0x00, 0x00] + seq![
        0x06u8, 0xe0, 0x2b, 0x58, 0x0d, 0xc0, 0xcf, 0x00, 0x02, 0x30, 0x00,
    ] + zeros(1) + seq![0xfeu8, 0xff, 0xfe, 0xff, 0xff, 0xff, 0xff, 0xff, 0xff, 0xff, 0xff, 0xff]
        + seq![0x38u8, 0x1c, 0xc7, 0x01] + zeros(22) + le16(1000) + seq![
        2u8, 1, 1, 1, 0, 1, 1, 0,
    ] + zeros(2)
}

/// Writes the D80 board configuration at the front of `output`.
pub fn encode_d80_board_me_config(output: &mut [u8]) -> (result: Result<usize, MeEncodeError>)
    ensures
        old(output)@.len() < 112 ==> result == Err::<usize, MeEncodeError>(
            MeEncodeError { required: 112, available: old(output).len() },
        ) && final(output)@ == old(output)@,
        old(output)@.len() >= 112 ==> result == Ok::<usize, MeEncodeError>(112) && final(output)@
            == d80_board_me_config() + old(output)@.skip(112),
{
    if output.len() < 112 {
        return Err(MeEncodeError { required: 112, available: output.len() });
    }
    let mut config: Vec<u8> = Vec::new();
    push_le16(&mut config, 0x0963);
    config.push(0x1f);
    push_slice(&mut config, &[0xff, 0, 0, 0, 1, 0, 0, 0, 0, 0, 0x96, 0, 1, 0, 0, 0]);
    push_zeros(&mut config, 13);
    push_le32(&mut config, 0x0398_7131);
    push_le16(&mut config, 0xfffe);
    push_le16(&mut config, 390);
    push_le16(&mut config, 0xfffe);
    push_le16(&mut config, 390);
    push_slice(&mut config, &[0x00, 0x00, 0x02, 0x00, 0x00, 0x00]);
    push_slice(&mut config, &[0x06, 0xe0, 0x2b, 0x58, 0x0d, 0xc0, 0xcf, 0x00, 0x02, 0x30, 0x00]);
    push_zeros(&mut config, 1);
    push_slice(&mut config, &[0xfe, 0xff, 0xfe, 0xff, 0xff, 0xff, 0xff, 0xff, 0xff, 0xff, 0xff, 0xff]);
    push_slice(&mut config, &[0x38, 0x1c, 0xc7, 0x01]);
    push_zeros(&mut config, 22);
    push_le16(&mut config, 1000);
    push_slice(&mut config, &[2, 1, 1, 1, 0, 1, 1, 0]);
    push_zeros(&mut config, 2);
    assert(config@ =~= d80_board_me_config());
    copy_prefix(output, config.as_slice());
    Ok(112)
}

/// One channel definition: frequency, band, no flags, 20 dBm, no flags.
pub open spec fn channel_slot(frequency: u16, band: u8) -> Seq<u8> {
    le16(frequency) + seq![band, 0u8, 20u8, 0u8]
}

/// The channel definitions of `frequencies` in `band`, in order.
pub open spec fn channel_slots(frequencies: Seq<u16>, band: u8) -> Seq<u8>
    decreases frequencies.len(),
{
    if frequencies.len() == 0 {
        Seq::empty()
    } else {
        channel_slots(frequencies.drop_last(), band) + channel_slot(frequencies.last(), band)
    }
}

/// The 2.4 GHz channel frequencies.
pub open spec fn channels_2ghz() -> Seq<u16> {
    seq![2412u16, 2417, 2422, 2427, 2432, 2437, 2442, 2447, 2452, 2457, 2462, 2467, 2472, 2484]
}

/// The 5 GHz channel frequencies.
pub open spec fn channels_5ghz() -> Seq<u16> {
    seq![
        5180u16, 5200, 5220, 5240, 5260, 5280, 5300, 5320, 5500, 5520, 5540, 5560, 5580, 5600,
        5620, 5640, 5660, 5680, 5700, 5720, 5745, 5765, 5785, 5805, 5825,
    ]
}

/// The 254-byte channel configuration: 14 slots for 2.4 GHz channels, 28 for 5 GHz ones
/// (25 used), then the two channel counts.
pub open spec fn d80_board_channel_config() -> Seq<u8> {
    channel_slots(channels_2ghz(), 0) + channel_slots(channels_5ghz(), 1) + zeros(18) + seq![
        14u8,
        25u8,
    ]
}

/// Appends the channel definitions of `frequencies` in `band`.
pub(crate) fn push_channels(config: &mut Vec<u8>, frequencies: &[u16], band: u8)
    ensures
        final(config)@ == old(config)@ + channel_slots(frequencies@, band),
{
    let ghost start = config@;
    let mut i: usize = 0;
    while i < frequencies.len()
        invariant
            i <= frequencies@.len(),
            config@ == start + channel_slots(frequencies@.take(i as int), band),
        decreases frequencies@.len() - i,
    {
        push_le16(config, frequencies[i]);
        config.push(band);
        config.push(0);
        config.push(20);
        config.push(0);
        assert(frequencies@.take(i + 1).drop_last() =~= frequencies@.take(i as int));
        assert(config@ =~= start + channel_slots(frequencies@.take(i + 1), band));
        i = i + 1;
    }
    assert(frequencies@.take(frequencies@.len() as int) =~= frequencies@);
}

/// Writes the D80 board channel configuration at the front of `output`.
pub fn encode_d80_board_channel_config(output: &mut [u8]) -> (result: Result<usize, MeEncodeError>)
    ensures
        old(output)@.len() < 254 ==> result == Err::<usize, MeEncodeError>(
            MeEncodeError { required: 254, available: old(output).len() },
        ) && final(output)@ == old(output)@,
        old(output)@.len() >= 254 ==> result == Ok::<usize, MeEncodeError>(254) && final(output)@
            == d80_board_channel_config() + old(output)@.skip(254),
{
    if output.len() < 254 {
        return Err(MeEncodeError { required: 254, available: output.len() });
    }
    let channels_2ghz_array = CHANNELS_2GHZ;
    let channels_5ghz_array = CHANNELS_5GHZ;
    assert(channels_2ghz_array@ =~= channels_2ghz());
    assert(channels_5ghz_array@ =~= channels_5ghz());
    let mut config: Vec<u8> = Vec::new();
    push_channels(&mut config, &channels_2ghz_array, 0);
    push_channels(&mut config, &channels_5ghz_array, 1);
    push_zeros(&mut config, 18);
    config.push(14);
    config.push(25);
    assert(config@ =~= d80_board_channel_config());
    proof {
        lemma_channel_config_length();
    }
    copy_prefix(output, config.as_slice());
    Ok(254)
}

/// Each channel definition takes six bytes.
proof fn lemma_channel_slots_length(frequencies: Seq<u16>, band: u8)
    ensures
        channel_slots(frequencies, band).len() == 6 * frequencies.len(),
    decreases frequencies.len(),
{
    if frequencies.len() > 0 {
        lemma_channel_slots_length(frequencies.drop_last(), band);
    }
}

/// The channel configuration has 254 bytes.
proof fn lemma_channel_config_length()
    ensures
        d80_board_channel_config().len() == 254,
{
    lemma_channel_slots_length(channels_2ghz(), 0);
    lemma_channel_slots_length(channels_5ghz(), 1);
}

/// Writes the control port parameter: the station and whether its port is open.
pub fn encode_set_control_port_parameters(output: &mut [u8], station_index: u8, open: bool) -> (result:
    Result<usize, MeEncodeError>)
    ensures
        old(output)@.len() < 2 ==> result == Err::<usize, MeEncodeError>(
            MeEncodeError { required: 2, available: old(output).len() },
        ) && final(output)@ == old(output)@,
        old(output)@.len() >= 2 ==> result == Ok::<usize, MeEncodeError>(2) && final(output)@
            == seq![
            station_index,
            if open {
                1u8
            } else {
                0u8
            },
        ] + old(output)@.skip(2),
{
    if output.len() < 2 {
        return Err(MeEncodeError { required: 2, available: output.len() });
    }
    let ghost original = output@;
    output[0] = station_index;
    output[1] = if open {
        1
    } else {
        0
    };
    assert(output@ =~= seq![
        station_index,
        if open {
            1u8
        } else {
            0u8
        },
    ] + original.skip(2));
    Ok(2)
}

/// Whether a management entity request `request_id` with `parameter` was sent within
/// `operations`.
pub open spec fn me_request_sent(
    product: Aic8800Product,
    operations: Seq<BusOperation>,
    request_id: u16,
    parameter: Seq<u8>,
) -> bool {
    sent_command(
        product,
        operations,
        spec_command_transfer(
            spec_command_header_mode(product),
            request_id,
            ME_TASK_ID,
            DRIVER_TASK_ID,
            parameter,
        ),
    )
}

/// Whether `received` holds a response `response_id`.
pub open spec fn me_confirmed(received: Seq<u8>, response_id: u16) -> bool {
    exists|response: ConfigResponseView| #[trigger] received_response(received, response_id, response)
}

/// The transaction error a management entity request ended with, if it ended with one.
pub open spec fn me_transaction_error<T, E>(result: Result<T, AicMeError<E>>) -> Option<
    AicTransactionError<E>,
> {
    match result {
        Err(AicMeError::Transaction(error)) => Some(error),
        _ => None,
    }
}

/// The parameter of a control port request.
pub open spec fn control_port_parameter(station_index: u8, open: bool) -> Seq<u8> {
    seq![station_index, if open { 1u8 } else { 0u8 }]
}

/// Whether `result` is what a management entity request returns for the round trip
/// `outcome`.
pub open spec fn me_result<E>(outcome: Result<ConfigResponseView, AicTransactionError<E>>, result: Result<(), AicMeError<E>>) -> bool {
    match outcome {
        Ok(_) => result == Ok::<(), AicMeError<E>>(()),
        Err(error) => result == Err::<(), AicMeError<E>>(AicMeError::Transaction(error)),
    }
}

/// Whether `operations` (receive storage going from `middle` to `after`) are what follows
/// a configuration round trip that ended with `first`, with parameter storage of
/// `parameter_capacity` bytes: nothing when it failed or when the channel configuration
/// does not fit, with that error returned; else exactly the channel configuration round
/// trip, whose outcome gives `result`.
pub open spec fn channel_config_step<E>(
    product: Aic8800Product,
    parameter_capacity: nat,
    capacity: nat,
    timeout: u32,
    first: Result<ConfigResponseView, AicTransactionError<E>>,
    operations: Seq<BusOperation>,
    middle: Seq<u8>,
    after: Seq<u8>,
    result: Result<(), AicMeError<E>>,
) -> bool {
    match first {
        Err(error) => result == Err::<(), AicMeError<E>>(AicMeError::Transaction(error))
            && operations.len() == 0 && after == middle,
        Ok(_) => if parameter_capacity < 254 {
            result == Err::<(), AicMeError<E>>(
                AicMeError::Encode(
                    MeEncodeError { required: 254, available: parameter_capacity as usize },
                ),
            ) && operations.len() == 0 && after == middle
        } else {
            exists|second: Result<ConfigResponseView, AicTransactionError<E>>|
                #[trigger] round_trip(
                    product,
                    ME_CHANNEL_CONFIG_REQUEST,
                    ME_TASK_ID,
                    DRIVER_TASK_ID,
                    d80_board_channel_config(),
                    ME_CHANNEL_CONFIG_CONFIRM,
                    capacity,
                    timeout,
                    operations,
                    middle,
                    after,
                    second,
                ) && me_result(second, result)
        },
    }
}

/// Whether `operations` (receive storage going from `before` to `after`) are the D80 board
/// set-up that returned `result`: the configuration round trip and then, in order and only
/// when it succeeded, the channel configuration round trip.
pub open spec fn me_board_run<E>(
    product: Aic8800Product,
    parameter_capacity: nat,
    capacity: nat,
    timeout: u32,
    operations: Seq<BusOperation>,
    before: Seq<u8>,
    after: Seq<u8>,
    result: Result<(), AicMeError<E>>,
) -> bool {
    exists|split: int, middle: Seq<u8>, first: Result<ConfigResponseView, AicTransactionError<E>>|
        0 <= split <= operations.len() && #[trigger] round_trip(
            product,
            ME_CONFIG_REQUEST,
            ME_TASK_ID,
            DRIVER_TASK_ID,
            d80_board_me_config(),
            ME_CONFIG_CONFIRM,
            capacity,
            timeout,
            operations.take(split),
            before,
            middle,
            first,
        )
            && channel_config_step(
            product,
            parameter_capacity,
            capacity,
            timeout,
            first,
            operations.skip(split),
            middle,
            after,
            result,
        )
}

/// A configuration round trip over all of `operations`, after which nothing more is done,
/// is a D80 board set-up.
proof fn lemma_me_board_first<E>(
    product: Aic8800Product,
    parameter_capacity: nat,
    capacity: nat,
    timeout: u32,
    operations: Seq<BusOperation>,
    before: Seq<u8>,
    after: Seq<u8>,
    first: Result<ConfigResponseView, AicTransactionError<E>>,
    result: Result<(), AicMeError<E>>,
)
    requires
        round_trip(
            product,
            ME_CONFIG_REQUEST,
            ME_TASK_ID,
            DRIVER_TASK_ID,
            d80_board_me_config(),
            ME_CONFIG_CONFIRM,
            capacity,
            timeout,
            operations,
            before,
            after,
            first,
        ),
        channel_config_step(
            product,
            parameter_capacity,
            capacity,
            timeout,
            first,
            Seq::<BusOperation>::empty(),
            after,
            after,
            result,
        ),
    ensures
        me_board_run(product, parameter_capacity, capacity, timeout, operations, before, after, result),
{
    assert(operations.take(operations.len() as int) =~= operations);
    assert(operations.skip(operations.len() as int) =~= Seq::<BusOperation>::empty());
    assert(round_trip(
            product,
            ME_CONFIG_REQUEST,
            ME_TASK_ID,
            DRIVER_TASK_ID,
            d80_board_me_config(),
            ME_CONFIG_CONFIRM,
            capacity,
            timeout,
            operations.take(operations.len() as int),
            before,
            after,
            first,
        ));
}

/// A configuration round trip that succeeded, followed by a channel configuration round
/// trip that gave `result`, is a D80 board set-up.
proof fn lemma_me_board_both<E>(
    product: Aic8800Product,
    parameter_capacity: nat,
    capacity: nat,
    timeout: u32,
    start: Seq<BusOperation>,
    middle: Seq<BusOperation>,
    end: Seq<BusOperation>,
    before: Seq<u8>,
    middle_received: Seq<u8>,
    after: Seq<u8>,
    first: Result<ConfigResponseView, AicTransactionError<E>>,
    second: Result<ConfigResponseView, AicTransactionError<E>>,
    result: Result<(), AicMeError<E>>,
)
    requires
        log_extends(start, middle),
        log_extends(middle, end),
        first is Ok,
        parameter_capacity >= 254,
        round_trip(
            product,
            ME_CONFIG_REQUEST,
            ME_TASK_ID,
            DRIVER_TASK_ID,
            d80_board_me_config(),
            ME_CONFIG_CONFIRM,
            capacity,
            timeout,
            appended(start, middle),
            before,
            middle_received,
            first,
        ),
        round_trip(
            product,
            ME_CHANNEL_CONFIG_REQUEST,
            ME_TASK_ID,
            DRIVER_TASK_ID,
            d80_board_channel_config(),
            ME_CHANNEL_CONFIG_CONFIRM,
            capacity,
            timeout,
            appended(middle, end),
            middle_received,
            after,
            second,
        ),
        me_result(second, result),
    ensures
        me_board_run(
            product,
            parameter_capacity,
            capacity,
            timeout,
            appended(start, end),
            before,
            after,
            result,
        ),
{
    let operations = appended(start, end);
    let split = middle.len() - start.len();
    assert(operations.take(split) =~= appended(start, middle));
    assert(operations.skip(split) =~= appended(middle, end));
    assert(round_trip(
            product,
            ME_CHANNEL_CONFIG_REQUEST,
            ME_TASK_ID,
            DRIVER_TASK_ID,
            d80_board_channel_config(),
            ME_CHANNEL_CONFIG_CONFIRM,
            capacity,
            timeout,
            operations.skip(split),
            middle_received,
            after,
            second,
        ));
    assert(channel_config_step(
        product,
        parameter_capacity,
        capacity,
        timeout,
        first,
        operations.skip(split),
        middle_received,
        after,
        result,
    ));
    assert(round_trip(
            product,
            ME_CONFIG_REQUEST,
            ME_TASK_ID,
            DRIVER_TASK_ID,
            d80_board_me_config(),
            ME_CONFIG_CONFIRM,
            capacity,
            timeout,
            operations.take(split),
            before,
            middle_received,
            first,
        ));
}

/// A client of the management entity over a device handle and the storage the round
/// trips use.
pub struct AicMeClient<'a, I> {
    io: &'a mut I,
    product: Aic8800Product,
    parameter_storage: &'a mut [u8],
    transmit_storage: &'a mut [u8],
    receive_storage: &'a mut [u8],
    response_timeout_ms: u32,
}

impl<'a, I> AicMeClient<'a, I> where
    I: AicCommandIo + AicResponseIo<Error = <I as AicCommandIo>::Error>,
 {
    /// The bus log of the device handle.
    pub closed spec fn io_log(&self) -> Seq<BusOperation> {
        self.io.bus_log()
    }

    pub closed spec fn product(&self) -> Aic8800Product {
        self.product
    }

    /// The bytes of parameter storage.
    pub closed spec fn parameter_capacity(&self) -> nat {
        self.parameter_storage@.len()
    }

    /// What receive storage holds.
    pub closed spec fn received(&self) -> Seq<u8> {
        self.receive_storage@
    }

    /// The bytes of transmit storage.
    pub closed spec fn transmit_capacity(&self) -> nat {
        self.transmit_storage@.len()
    }

    pub closed spec fn response_timeout(&self) -> u32 {
        self.response_timeout_ms
    }

    pub fn new(
        io: &'a mut I,
        product: Aic8800Product,
        parameter_storage: &'a mut [u8],
        transmit_storage: &'a mut [u8],
        receive_storage: &'a mut [u8],
        response_timeout_ms: u32,
    ) -> (client: Self)
        ensures
            client.product() == product,
            client.parameter_capacity() == old(parameter_storage)@.len(),
            client.transmit_capacity() == old(transmit_storage)@.len(),
            client.response_timeout() == response_timeout_ms,
    {
        AicMeClient {
            io,
            product,
            parameter_storage,
            transmit_storage,
            receive_storage,
            response_timeout_ms,
        }
    }

    /// Sends the D80 board configuration, then the channel configuration.
    #[verifier::rlimit(80)]
    pub fn configure_d80_board(&mut self) -> (result: Result<(), AicMeError<<I as AicCommandIo>::Error>>)
        ensures
            final(self).product() == old(self).product(),
            final(self).parameter_capacity() == old(self).parameter_capacity(),
            log_extends(old(self).io_log(), final(self).io_log()),
            old(self).parameter_capacity() < 112 ==> result == Err::<
                (),
                AicMeError<<I as AicCommandIo>::Error>,
            >(
                AicMeError::Encode(
                    MeEncodeError {
                        required: 112,
                        available: old(self).parameter_capacity() as usize,
                    },
                ),
            ) && final(self).io_log() == old(self).io_log(),
            result matches Err(AicMeError::Encode(error)) ==> error.available
                == old(self).parameter_capacity() && error.required > error.available,
            final(self).transmit_capacity() == old(self).transmit_capacity(),
            final(self).response_timeout() == old(self).response_timeout(),
            old(self).parameter_capacity() >= 112 ==> (spec_command_framing_error(
                112,
                old(self).transmit_capacity(),
            ) matches Some(error) ==> result == Err::<(), AicMeError<<I as AicCommandIo>::Error>>(
                AicMeError::Transaction(AicTransactionError::Protocol(error)),
            ) && final(self).io_log() == old(self).io_log()),
            me_transaction_error(result) matches Some(AicTransactionError::Protocol(error)) ==> (
            spec_command_framing_error(112, old(self).transmit_capacity()) == Some(error)
                || spec_command_framing_error(254, old(self).transmit_capacity()) == Some(error)),
            me_transaction_error(result) matches Some(
                AicTransactionError::Receive(AicResponseError::Timeout { milliseconds }),
            ) ==> milliseconds == old(self).response_timeout(),
            me_transaction_error(result) matches Some(AicTransactionError::Receive(_)) ==> me_request_sent(
                old(self).product(),
                final(self).io_log().skip(old(self).io_log().len() as int),
                ME_CONFIG_REQUEST,
                d80_board_me_config(),
            ),
            result is Ok ==> me_request_sent(
                old(self).product(),
                final(self).io_log().skip(old(self).io_log().len() as int),
                ME_CONFIG_REQUEST,
                d80_board_me_config(),
            ) && me_request_sent(
                old(self).product(),
                final(self).io_log().skip(old(self).io_log().len() as int),
                ME_CHANNEL_CONFIG_REQUEST,
                d80_board_channel_config(),
            ) && me_confirmed(final(self).received(), ME_CHANNEL_CONFIG_CONFIRM),
            old(self).parameter_capacity() >= 112 ==> me_board_run(
                old(self).product(),
                old(self).parameter_capacity(),
                old(self).transmit_capacity(),
                old(self).response_timeout(),
                appended(old(self).io_log(), final(self).io_log()),
                old(self).received(),
                final(self).received(),
                result,
            ),
    {
        let ghost start = self.io.bus_log();
        let length = match encode_d80_board_me_config(self.parameter_storage) {
            Ok(length) => length,
            Err(error) => return Err(AicMeError::Encode(error)),
        };
        assert(self.parameter_storage@.subrange(0, 112) =~= d80_board_me_config());
        let exchanged = execute_config_command(
            self.io,
            self.product,
            ME_CONFIG_REQUEST,
            ME_CONFIG_CONFIRM,
            ME_TASK_ID,
            DRIVER_TASK_ID,
            &self.parameter_storage[0..length],
            self.transmit_storage,
            self.receive_storage,
            self.response_timeout_ms,
        );
        let ghost first = transaction_view(exchanged);
        match exchanged {
            Ok(_) => {},
            Err(error) => {
                assert(self.io.bus_log().skip(start.len() as int).len() == 0 ==> self.io.bus_log()
                    =~= start);
                proof {
                    lemma_me_board_first(
                        self.product,
                        self.parameter_storage@.len(),
                        self.transmit_storage@.len(),
                        self.response_timeout_ms,
                        appended(start, self.io.bus_log()),
                        old(self).receive_storage@,
                        self.receive_storage@,
                        first,
                        Err::<(), AicMeError<CommandIoError<I>>>(AicMeError::Transaction(error)),
                    );
                }
                return Err(AicMeError::Transaction(error));
            },
        }
        let ghost middle = self.io.bus_log();
        let ghost middle_received = self.receive_storage@;
        let length = match encode_d80_board_channel_config(self.parameter_storage) {
            Ok(length) => length,
            Err(error) => {
                proof {
                    lemma_me_board_first(
                        self.product,
                        self.parameter_storage@.len(),
                        self.transmit_storage@.len(),
                        self.response_timeout_ms,
                        appended(start, self.io.bus_log()),
                        old(self).receive_storage@,
                        self.receive_storage@,
                        first,
                        Err::<(), AicMeError<CommandIoError<I>>>(AicMeError::Encode(error)),
                    );
                }
                return Err(AicMeError::Encode(error));
            },
        };
        proof {
            lemma_channel_config_length();
        }
        assert(self.parameter_storage@.subrange(0, 254) =~= d80_board_channel_config());
        let second = execute_config_command(
            self.io,
            self.product,
            ME_CHANNEL_CONFIG_REQUEST,
            ME_CHANNEL_CONFIG_CONFIRM,
            ME_TASK_ID,
            DRIVER_TASK_ID,
            &self.parameter_storage[0..length],
            self.transmit_storage,
            self.receive_storage,
            self.response_timeout_ms,
        );
        proof {
            crate::firmware::lemma_sent_command_kept(
                self.product,
                start,
                middle,
                self.io.bus_log(),
                spec_command_transfer(
                    spec_command_header_mode(self.product),
                    ME_CONFIG_REQUEST,
                    ME_TASK_ID,
                    DRIVER_TASK_ID,
                    d80_board_me_config(),
                ),
            );
        }
        let ghost second_outcome = transaction_view(second);
        let result = match second {
            Ok(response) => {
                assert(received_response(self.receive_storage@, ME_CHANNEL_CONFIG_CONFIRM, response@));
                proof {
                    crate::firmware::lemma_sent_command_kept(
                        self.product,
                        start,
                        middle,
                        self.io.bus_log(),
                        spec_command_transfer(
                            spec_command_header_mode(self.product),
                            ME_CHANNEL_CONFIG_REQUEST,
                            ME_TASK_ID,
                            DRIVER_TASK_ID,
                            d80_board_channel_config(),
                        ),
                    );
                }
                Ok(())
            },
            Err(error) => Err(AicMeError::Transaction(error)),
        };
        proof {
            lemma_me_board_both(
                self.product,
                self.parameter_storage@.len(),
                self.transmit_storage@.len(),
                self.response_timeout_ms,
                start,
                middle,
                self.io.bus_log(),
                old(self).receive_storage@,
                middle_received,
                self.receive_storage@,
                first,
                second_outcome,
                result,
            );
        }
        result
    }

    /// Opens or closes the control port of station `station_index`.
    #[verifier::rlimit(60)]
    pub fn set_control_port(&mut self, station_index: u8, open: bool) -> (result: Result<
        (),
        AicMeError<<I as AicCommandIo>::Error>,
    >)
        ensures
            final(self).product() == old(self).product(),
            final(self).parameter_capacity() == old(self).parameter_capacity(),
            log_extends(old(self).io_log(), final(self).io_log()),
            old(self).parameter_capacity() < 2 ==> result == Err::<
                (),
                AicMeError<<I as AicCommandIo>::Error>,
            >(
                AicMeError::Encode(
                    MeEncodeError { required: 2, available: old(self).parameter_capacity() as usize },
                ),
            ),
            result matches Err(AicMeError::Encode(_)) ==> old(self).parameter_capacity() < 2,
            final(self).transmit_capacity() == old(self).transmit_capacity(),
            final(self).response_timeout() == old(self).response_timeout(),
            old(self).parameter_capacity() >= 2 ==> transaction_failure_stated(
                old(self).product(),
                spec_command_transfer(
                    spec_command_header_mode(old(self).product()),
                    ME_SET_CONTROL_PORT_REQUEST,
                    ME_TASK_ID,
                    DRIVER_TASK_ID,
                    seq![station_index, if open { 1u8 } else { 0u8 }],
                ),
                2,
                old(self).transmit_capacity(),
                old(self).response_timeout(),
                final(self).io_log().skip(old(self).io_log().len() as int),
                me_transaction_error(result),
            ),
            result is Ok ==> me_request_sent(
                old(self).product(),
                final(self).io_log().skip(old(self).io_log().len() as int),
                ME_SET_CONTROL_PORT_REQUEST,
                seq![
                    station_index,
                    if open {
                        1u8
                    } else {
                        0u8
                    },
                ],
            ) && me_confirmed(final(self).received(), ME_SET_CONTROL_PORT_CONFIRM),
            old(self).parameter_capacity() >= 2 ==> exists|outcome: Result<ConfigResponseView, AicTransactionError<CommandIoError<I>>>|
                #[trigger] round_trip(
                    old(self).product(),
                    ME_SET_CONTROL_PORT_REQUEST,
                    ME_TASK_ID,
                    DRIVER_TASK_ID,
                    control_port_parameter(station_index, open),
                    ME_SET_CONTROL_PORT_CONFIRM,
                    old(self).transmit_capacity(),
                    old(self).response_timeout(),
                    appended(old(self).io_log(), final(self).io_log()),
                    old(self).received(),
                    final(self).received(),
                    outcome,
                ) && me_result(outcome, result),
    {
        let length = match encode_set_control_port_parameters(
            self.parameter_storage,
            station_index,
            open,
        ) {
            Ok(length) => length,
            Err(error) => return Err(AicMeError::Encode(error)),
        };
        assert(self.parameter_storage@.subrange(0, 2) =~= seq![
            station_index,
            if open {
                1u8
            } else {
                0u8
            },
        ]);
        let exchanged = execute_config_command(
            self.io,
            self.product,
            ME_SET_CONTROL_PORT_REQUEST,
            ME_SET_CONTROL_PORT_CONFIRM,
            ME_TASK_ID,
            DRIVER_TASK_ID,
            &self.parameter_storage[0..length],
            self.transmit_storage,
            self.receive_storage,
            self.response_timeout_ms,
        );
        let ghost outcome = transaction_view(exchanged);
        let result = match exchanged {
            Ok(response) => {
                assert(received_response(
                    self.receive_storage@,
                    ME_SET_CONTROL_PORT_CONFIRM,
                    response@,
                ));
                Ok(())
            },
            Err(error) => Err(AicMeError::Transaction(error)),
        };
        proof {
            assert(round_trip(
                old(self).product(),
                ME_SET_CONTROL_PORT_REQUEST,
                ME_TASK_ID,
                DRIVER_TASK_ID,
                control_port_parameter(station_index, open),
                ME_SET_CONTROL_PORT_CONFIRM,
                old(self).transmit_capacity(),
                old(self).response_timeout(),
                appended(old(self).io_log(), self.io_log()),
                old(self).received(),
                self.received(),
                outcome,
            ));
        }
        result
    }
}

} // verus!
