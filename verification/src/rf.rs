//! RF set-up of the D80 board: the transmit power table and the RF calibration request.
use vstd::prelude::*;

use crate::bytes::{le32, le32_at, le32_bytes, read_le32, zeros};
use crate::device::{Aic8800Product, spec_command_header_mode};
use crate::firmware::DRIVER_TASK_ID;
use crate::management::MM_TASK_ID;
use crate::protocol::ConfigResponseView;
use crate::response::{AicResponseError, AicResponseIo};
use crate::sdio::{AicCommandIo, BusOperation, CommandIoError, appended, log_extends};
use crate::transaction::{
    AicTransactionError, execute_config_command, received_response, round_trip, sent_command,
    spec_command_framing_error, spec_command_transfer, transaction_view,
};

verus! {

pub const MM_SET_RF_CALIB_REQUEST: u16 = 105;

pub const MM_SET_RF_CALIB_CONFIRM: u16 = 106;

pub const MM_SET_TX_POWER_INDEX_LEVEL_REQUEST: u16 = 119;

pub const MM_SET_TX_POWER_INDEX_LEVEL_CONFIRM: u16 = 120;

/// Transmit power levels per rate group, in dBm.
#[derive(Clone, Copy, Debug, Eq, PartialEq)]
pub struct D80TxPowerLevelV3 {
    pub enabled: bool,
    pub level_11b_11ag_2g4: [i8; 12],
    pub level_11n_11ac_2g4: [i8; 10],
    pub level_11ax_2g4: [i8; 12],
    pub level_11a_5g: [i8; 12],
    pub level_11n_11ac_5g: [i8; 10],
    pub level_11ax_5g: [i8; 12],
}

/// The transmit power levels of the D80 board.
pub fn d80_board_tx_power_level_v3() -> (levels: D80TxPowerLevelV3)
    ensures
        levels.enabled,
        levels.level_11b_11ag_2g4@ == seq![18i8, 18, 18, 18, 18, 18, 18, 18, 16, 16, 15, 15],
        levels.level_11n_11ac_2g4@ == seq![18i8, 18, 18, 18, 16, 16, 15, 15, 14, 14],
        levels.level_11ax_2g4@ == seq![18i8, 18, 18, 18, 16, 16, 15, 15, 14, 14, 13, 13],
        levels.level_11a_5g@ == seq![-128i8, -128i8, -128i8, -128i8, 18, 18, 18, 18, 16, 16, 15, 15],
        levels.level_11n_11ac_5g@ == seq![18i8, 18, 18, 18, 16, 16, 15, 15, 14, 14],
        levels.level_11ax_5g@ == seq![18i8, 18, 18, 18, 16, 16, 14, 14, 13, 13, 12, 12],
{
    let levels = D80TxPowerLevelV3 {
        enabled: true,
        level_11b_11ag_2g4: [18, 18, 18, 18, 18, 18, 18, 18, 16, 16, 15, 15],
        level_11n_11ac_2g4: [18, 18, 18, 18, 16, 16, 15, 15, 14, 14],
        level_11ax_2g4: [18, 18, 18, 18, 16, 16, 15, 15, 14, 14, 13, 13],
        level_11a_5g: [-128, -128, -128, -128, 18, 18, 18, 18, 16, 16, 15, 15],
        level_11n_11ac_5g: [18, 18, 18, 18, 16, 16, 15, 15, 14, 14],
        level_11ax_5g: [18, 18, 18, 18, 16, 16, 14, 14, 13, 13, 12, 12],
    };
    assert(levels.level_11b_11ag_2g4@ =~= seq![18i8, 18, 18, 18, 18, 18, 18, 18, 16, 16, 15, 15]);
    assert(levels.level_11n_11ac_2g4@ =~= seq![18i8, 18, 18, 18, 16, 16, 15, 15, 14, 14]);
    assert(levels.level_11ax_2g4@ =~= seq![18i8, 18, 18, 18, 16, 16, 15, 15, 14, 14, 13, 13]);
    assert(levels.level_11a_5g@ =~= seq![-128i8, -128i8, -128i8, -128i8, 18, 18, 18, 18, 16, 16, 15, 15]);
    assert(levels.level_11n_11ac_5g@ =~= seq![18i8, 18, 18, 18, 16, 16, 15, 15, 14, 14]);
    assert(levels.level_11ax_5g@ =~= seq![18i8, 18, 18, 18, 16, 16, 14, 14, 13, 13, 12, 12]);
    levels
}

/// Signed levels as the bytes that carry them.
pub open spec fn level_bytes(levels: Seq<i8>) -> Seq<u8> {
    levels.map_values(|level: i8| level as u8)
}

/// The 95-byte transmit power request: the enable flag, the six level groups in order,
/// then zeros.
pub open spec fn tx_power_level_request(levels: D80TxPowerLevelV3) -> Seq<u8> {
    seq![
        if levels.enabled {
            1u8
        } else {
            0u8
        },
    ] + level_bytes(levels.level_11b_11ag_2g4@) + level_bytes(levels.level_11n_11ac_2g4@)
        + level_bytes(levels.level_11ax_2g4@) + level_bytes(levels.level_11a_5g@) + level_bytes(
        levels.level_11n_11ac_5g@,
    ) + level_bytes(levels.level_11ax_5g@) + zeros(26)
}

/// The transmit power request of the D80 board.
pub open spec fn board_tx_power_request() -> Seq<u8> {
    seq![1u8] + level_bytes(seq![18i8, 18, 18, 18, 18, 18, 18, 18, 16, 16, 15, 15]) + level_bytes(
        seq![18i8, 18, 18, 18, 16, 16, 15, 15, 14, 14],
    ) + level_bytes(seq![18i8, 18, 18, 18, 16, 16, 15, 15, 14, 14, 13, 13]) + level_bytes(
        seq![-128i8, -128i8, -128i8, -128i8, 18, 18, 18, 18, 16, 16, 15, 15],
    ) + level_bytes(seq![18i8, 18, 18, 18, 16, 16, 15, 15, 14, 14]) + level_bytes(
        seq![18i8, 18, 18, 18, 16, 16, 14, 14, 13, 13, 12, 12],
    ) + zeros(26)
}

/// Writes `levels` into `output` from `offset` on.
fn copy_levels(output: &mut [u8; 95], offset: usize, levels: &[i8]) -> (end: usize)
    requires
        offset + levels@.len() <= 95,
    ensures
        end == offset + levels@.len(),
        final(output)@ == old(output)@.subrange(0, offset as int) + level_bytes(levels@) + old(
            output,
        )@.skip(end as int),
{
    let ghost original = output@;
    let mut i: usize = 0;
    while i < levels.len()
        invariant
            i <= levels@.len(),
            offset + levels@.len() <= 95,
            output@.len() == 95,
            forall|j: int| 0 <= j < offset ==> output@[j] == original[j],
            forall|j: int| 0 <= j < i ==> output@[offset + j] == levels@[j] as u8,
            forall|j: int| offset + i <= j < 95 ==> output@[j] == original[j],
        decreases levels@.len() - i,
    {
        output[offset + i] = levels[i] as u8;
        i = i + 1;
    }
    assert(output@ =~= original.subrange(0, offset as int) + level_bytes(levels@) + original.skip(
        offset + levels@.len(),
    ));
    offset + levels.len()
}

/// Encodes a transmit power request.
pub fn encode_d80_tx_power_level_request(levels: &D80TxPowerLevelV3) -> (request: [u8; 95])
    ensures
        request@ == tx_power_level_request(*levels),
{
    let mut output = [0u8; 95];
    output[0] = if levels.enabled {
        1
    } else {
        0
    };
    let ghost start = output@;
    let offset = copy_levels(&mut output, 1, &levels.level_11b_11ag_2g4);
    let offset = copy_levels(&mut output, offset, &levels.level_11n_11ac_2g4);
    let offset = copy_levels(&mut output, offset, &levels.level_11ax_2g4);
    let offset = copy_levels(&mut output, offset, &levels.level_11a_5g);
    let offset = copy_levels(&mut output, offset, &levels.level_11n_11ac_5g);
    let offset = copy_levels(&mut output, offset, &levels.level_11ax_5g);
    assert(offset == 69);
    assert(output@.skip(69) =~= zeros(26)) by {
        assert(forall|j: int| 69 <= j < 95 ==> output@[j] == start[j]);
    }
    assert(output@ =~= tx_power_level_request(*levels));
    output
}

/// The 24-byte RF calibration request of the D80 board, without a crystal override.
pub open spec fn rf_calibration_request() -> Seq<u8> {
    le32(0x0000_0f8f) + le32(0x0000_0f0f) + le32(0x0c34_c008) + le32(0) + le32(0x0026_4203)
        + zeros(4)
}

/// Encodes the RF calibration request.
pub fn encode_d80_rf_calibration_request() -> (request: [u8; 24])
    ensures
        request@ == rf_calibration_request(),
{
    let a = le32_bytes(0x0000_0f8f);
    let b = le32_bytes(0x0000_0f0f);
    let c = le32_bytes(0x0c34_c008);
    let d = le32_bytes(0x0026_4203);
    let output = [
        a[0], a[1], a[2], a[3], b[0], b[1], b[2], b[3], c[0], c[1], c[2], c[3], 0, 0, 0, 0, d[0],
        d[1], d[2], d[3], 0, 0, 0, 0,
    ];
    assert(output@ =~= rf_calibration_request());
    output
}

/// The gain table addresses an RF calibration confirms.
#[derive(Clone, Copy, Debug, Eq, PartialEq, Structural)]
pub struct RfCalibrationAddresses {
    pub rx_gain_24g: u32,
    pub rx_gain_5g: u32,
    pub tx_gain_24g: u32,
    pub tx_gain_5g: u32,
}

#[derive(Clone, Copy, Debug, Eq, PartialEq, Structural)]
pub enum RfDecodeError {
    TruncatedCalibrationConfirmation { required: usize, available: usize },
}

/// The four little-endian addresses of a calibration confirmation.
pub open spec fn spec_decode_rf_calibration(parameter: Seq<u8>) -> Result<
    RfCalibrationAddresses,
    RfDecodeError,
> {
    if parameter.len() < 16 {
        Err(
            RfDecodeError::TruncatedCalibrationConfirmation {
                required: 16,
                available: parameter.len() as usize,
            },
        )
    } else {
        Ok(
            RfCalibrationAddresses {
                rx_gain_24g: le32_at(parameter, 0),
                rx_gain_5g: le32_at(parameter, 4),
                tx_gain_24g: le32_at(parameter, 8),
                tx_gain_5g: le32_at(parameter, 12),
            },
        )
    }
}

/// Reads a calibration confirmation.
pub fn decode_rf_calibration_confirmation(parameter: &[u8]) -> (result: Result<
    RfCalibrationAddresses,
    RfDecodeError,
>)
    ensures
        result == spec_decode_rf_calibration(parameter@),
{
    if parameter.len() < 16 {
        return Err(
            RfDecodeError::TruncatedCalibrationConfirmation { required: 16, available: parameter.len() },
        );
    }
    Ok(
        RfCalibrationAddresses {
            rx_gain_24g: read_le32(parameter, 0),
            rx_gain_5g: read_le32(parameter, 4),
            tx_gain_24g: read_le32(parameter, 8),
            tx_gain_5g: read_le32(parameter, 12),
        },
    )
}

#[derive(Clone, Copy, Debug, Eq, PartialEq)]
pub enum AicRfError<E> {
    UnsupportedProduct(Aic8800Product),
    Transaction(AicTransactionError<E>),
    Decode(RfDecodeError),
}

/// Whether a management request `request_id` with `parameter` was sent within
/// `operations`.
pub open spec fn rf_request_sent(
    product: Aic8800Product,
    operations: Seq<BusOperation>,
    request_id: u16,
    parameter: Seq<u8>,
) -> bool {
    sent_command(
        product,
        operations,
        spec_command_transfer(
            spec_command_header_mode(product),
            request_id,
            MM_TASK_ID,
            DRIVER_TASK_ID,
            parameter,
        ),
    )
}

/// Whether `received` holds a calibration confirmation that reads as `addresses`.
pub open spec fn calibration_received(received: Seq<u8>, addresses: RfCalibrationAddresses) -> bool {
    exists|response: ConfigResponseView|
        #[trigger] received_response(received, MM_SET_RF_CALIB_CONFIRM, response)
            && spec_decode_rf_calibration(response.parameter) == Ok::<
            RfCalibrationAddresses,
            RfDecodeError,
        >(addresses)
}

/// The transaction error an RF request ended with, if it ended with one.
pub open spec fn rf_transaction_error<T, E>(result: Result<T, AicRfError<E>>) -> Option<
    AicTransactionError<E>,
> {
    match result {
        Err(AicRfError::Transaction(error)) => Some(error),
        _ => None,
    }
}

/// Whether `received` holds a calibration confirmation whose decoding reports `error`.
pub open spec fn calibration_refused(received: Seq<u8>, error: RfDecodeError) -> bool {
    exists|response: ConfigResponseView|
        #[trigger] received_response(received, MM_SET_RF_CALIB_CONFIRM, response)
            && spec_decode_rf_calibration(response.parameter) == Err::<
            RfCalibrationAddresses,
            RfDecodeError,
        >(error)
}

/// Whether `result` is what the calibration request returns for the round trip
/// `outcome`: the addresses its confirmation carries, the confirmation's decode error, or
/// the round trip's own error.
pub open spec fn calibration_result<E>(
    outcome: Result<ConfigResponseView, AicTransactionError<E>>,
    result: Result<RfCalibrationAddresses, AicRfError<E>>,
) -> bool {
    match outcome {
        Ok(response) => match spec_decode_rf_calibration(response.parameter) {
            Ok(addresses) => result == Ok::<RfCalibrationAddresses, AicRfError<E>>(addresses),
            Err(error) => result == Err::<RfCalibrationAddresses, AicRfError<E>>(
                AicRfError::Decode(error),
            ),
        },
        Err(error) => result == Err::<RfCalibrationAddresses, AicRfError<E>>(
            AicRfError::Transaction(error),
        ),
    }
}

/// Whether `operations` (receive storage going from `middle` to `after`) are what follows
/// a transmit power round trip that ended with `first`: nothing when it failed, with its
/// error returned; else exactly the calibration round trip, whose outcome gives `result`.
pub open spec fn calibration_step<E>(
    product: Aic8800Product,
    capacity: nat,
    timeout: u32,
    first: Result<ConfigResponseView, AicTransactionError<E>>,
    operations: Seq<BusOperation>,
    middle: Seq<u8>,
    after: Seq<u8>,
    result: Result<RfCalibrationAddresses, AicRfError<E>>,
) -> bool {
    match first {
        Err(error) => result == Err::<RfCalibrationAddresses, AicRfError<E>>(
            AicRfError::Transaction(error),
        ) && operations.len() == 0 && after == middle,
        Ok(_) => exists|second: Result<ConfigResponseView, AicTransactionError<E>>|
            #[trigger] round_trip(
                product,
                MM_SET_RF_CALIB_REQUEST,
                MM_TASK_ID,
                DRIVER_TASK_ID,
                rf_calibration_request(),
                MM_SET_RF_CALIB_CONFIRM,
                capacity,
                timeout,
                operations,
                middle,
                after,
                second,
            ) && calibration_result(second, result),
    }
}

/// Whether `operations` (receive storage going from `before` to `after`) are the D80 board
/// set-up that returned `result`: the transmit power round trip and then, in order and
/// only when it succeeded, the calibration round trip.
pub open spec fn rf_board_run<E>(
    product: Aic8800Product,
    capacity: nat,
    timeout: u32,
    operations: Seq<BusOperation>,
    before: Seq<u8>,
    after: Seq<u8>,
    result: Result<RfCalibrationAddresses, AicRfError<E>>,
) -> bool {
    exists|split: int, middle: Seq<u8>, first: Result<ConfigResponseView, AicTransactionError<E>>|
        0 <= split <= operations.len() && #[trigger] round_trip(
            product,
            MM_SET_TX_POWER_INDEX_LEVEL_REQUEST,
            MM_TASK_ID,
            DRIVER_TASK_ID,
            board_tx_power_request(),
            MM_SET_TX_POWER_INDEX_LEVEL_CONFIRM,
            capacity,
            timeout,
            operations.take(split),
            before,
            middle,
            first,
        ) && calibration_step(
            product,
            capacity,
            timeout,
            first,
            operations.skip(split),
            middle,
            after,
            result,
        )
}

/// A transmit power round trip that succeeded, followed by a calibration round trip that
/// gave `result`, is a D80 board set-up that returned `result`.
proof fn lemma_rf_board_run<E>(
    product: Aic8800Product,
    capacity: nat,
    timeout: u32,
    start: Seq<BusOperation>,
    middle: Seq<BusOperation>,
    end: Seq<BusOperation>,
    before: Seq<u8>,
    middle_received: Seq<u8>,
    after: Seq<u8>,
    first: Result<ConfigResponseView, AicTransactionError<E>>,
    second: Result<ConfigResponseView, AicTransactionError<E>>,
    result: Result<RfCalibrationAddresses, AicRfError<E>>,
)
    requires
        log_extends(start, middle),
        log_extends(middle, end),
        first is Ok,
        round_trip(
            product,
            MM_SET_TX_POWER_INDEX_LEVEL_REQUEST,
            MM_TASK_ID,
            DRIVER_TASK_ID,
            board_tx_power_request(),
            MM_SET_TX_POWER_INDEX_LEVEL_CONFIRM,
            capacity,
            timeout,
            appended(start, middle),
            before,
            middle_received,
            first,
        ),
        round_trip(
            product,
            MM_SET_RF_CALIB_REQUEST,
            MM_TASK_ID,
            DRIVER_TASK_ID,
            rf_calibration_request(),
            MM_SET_RF_CALIB_CONFIRM,
            capacity,
            timeout,
            appended(middle, end),
            middle_received,
            after,
            second,
        ),
        calibration_result(second, result),
    ensures
        rf_board_run(product, capacity, timeout, appended(start, end), before, after, result),
{
    let operations = appended(start, end);
    let split = middle.len() - start.len();
    assert(operations.take(split) =~= appended(start, middle));
    assert(operations.skip(split) =~= appended(middle, end));
    assert(calibration_step(
        product,
        capacity,
        timeout,
        first,
        operations.skip(split),
        middle_received,
        after,
        result,
    ));
    assert(round_trip(
        product,
        MM_SET_TX_POWER_INDEX_LEVEL_REQUEST,
        MM_TASK_ID,
        DRIVER_TASK_ID,
        board_tx_power_request(),
        MM_SET_TX_POWER_INDEX_LEVEL_CONFIRM,
        capacity,
        timeout,
        operations.take(split),
        before,
        middle_received,
        first,
    ));
}

/// A client for the RF set-up over a device handle and the storage the round trips use.
pub struct AicRfClient<'a, I> {
    io: &'a mut I,
    product: Aic8800Product,
    transmit_storage: &'a mut [u8],
    receive_storage: &'a mut [u8],
    response_timeout_ms: u32,
}

impl<'a, I> AicRfClient<'a, I> where
    I: AicCommandIo + AicResponseIo<Error = <I as AicCommandIo>::Error>,
 {
    /// The bus log of the device handle.
    pub closed spec fn io_log(&self) -> Seq<BusOperation> {
        self.io.bus_log()
    }

    pub closed spec fn product(&self) -> Aic8800Product {
        self.product
    }

    /// What receive storage holds.
    pub closed spec fn received(&self) -> Seq<u8> {
        self.receive_storage@
    }

    /// The bytes of transmit storage.
    pub closed spec fn transmit_capacity(&self) -> nat {
        self.transmit_storage@.len()
    }

    pub closed spec fn response_timeout(&self) -> u32 {
        self.response_timeout_ms
    }

    pub fn new(
        io: &'a mut I,
        product: Aic8800Product,
        transmit_storage: &'a mut [u8],
        receive_storage: &'a mut [u8],
        response_timeout_ms: u32,
    ) -> (client: Self)
        ensures
            client.product() == product,
            client.transmit_capacity() == old(transmit_storage)@.len(),
            client.response_timeout() == response_timeout_ms,
    {
        AicRfClient { io, product, transmit_storage, receive_storage, response_timeout_ms }
    }

    /// Sends the board's transmit power table, then the RF calibration request, and
    /// returns the gain table addresses the calibration confirms. Only the AIC8800D80 has
    /// this board set-up.
    #[verifier::rlimit(80)]
    pub fn configure_d80_board(&mut self) -> (result: Result<
        RfCalibrationAddresses,
        AicRfError<<I as AicCommandIo>::Error>,
    >)
        ensures
            final(self).product() == old(self).product(),
            log_extends(old(self).io_log(), final(self).io_log()),
            old(self).product() != Aic8800Product::Aic8800D80 ==> result == Err::<
                RfCalibrationAddresses,
                AicRfError<<I as AicCommandIo>::Error>,
            >(AicRfError::UnsupportedProduct(old(self).product())) && final(self).io_log() == old(
                self,
            ).io_log(),
            result matches Err(AicRfError::UnsupportedProduct(_)) ==> old(self).product()
                != Aic8800Product::Aic8800D80,
            result matches Ok(addresses) ==> rf_request_sent(
                old(self).product(),
                final(self).io_log().skip(old(self).io_log().len() as int),
                MM_SET_TX_POWER_INDEX_LEVEL_REQUEST,
                board_tx_power_request(),
            ) && rf_request_sent(
                old(self).product(),
                final(self).io_log().skip(old(self).io_log().len() as int),
                MM_SET_RF_CALIB_REQUEST,
                rf_calibration_request(),
            ) && calibration_received(final(self).received(), addresses),
            final(self).transmit_capacity() == old(self).transmit_capacity(),
            final(self).response_timeout() == old(self).response_timeout(),
            old(self).product() == Aic8800Product::Aic8800D80 ==> (spec_command_framing_error(
                95,
                old(self).transmit_capacity(),
            ) matches Some(error) ==> result == Err::<
                RfCalibrationAddresses,
                AicRfError<<I as AicCommandIo>::Error>,
            >(AicRfError::Transaction(AicTransactionError::Protocol(error))) && final(self).io_log()
                == old(self).io_log()),
            rf_transaction_error(result) matches Some(AicTransactionError::Protocol(error)) ==> (
            spec_command_framing_error(95, old(self).transmit_capacity()) == Some(error)
                || spec_command_framing_error(24, old(self).transmit_capacity()) == Some(error)),
            rf_transaction_error(result) matches Some(
                AicTransactionError::Receive(AicResponseError::Timeout { milliseconds }),
            ) ==> milliseconds == old(self).response_timeout(),
            rf_transaction_error(result) matches Some(AicTransactionError::Receive(_)) ==> rf_request_sent(
                old(self).product(),
                final(self).io_log().skip(old(self).io_log().len() as int),
                MM_SET_TX_POWER_INDEX_LEVEL_REQUEST,
                board_tx_power_request(),
            ),
            result matches Err(AicRfError::Decode(error)) ==> rf_request_sent(
                old(self).product(),
                final(self).io_log().skip(old(self).io_log().len() as int),
                MM_SET_RF_CALIB_REQUEST,
                rf_calibration_request(),
            ) && calibration_refused(final(self).received(), error),
            old(self).product() == Aic8800Product::Aic8800D80 ==> rf_board_run(
                old(self).product(),
                old(self).transmit_capacity(),
                old(self).response_timeout(),
                appended(old(self).io_log(), final(self).io_log()),
                old(self).received(),
                final(self).received(),
                result,
            ),
    {
        if self.product != Aic8800Product::Aic8800D80 {
            return Err(AicRfError::UnsupportedProduct(self.product));
        }
        let ghost start = self.io.bus_log();
        let levels = d80_board_tx_power_level_v3();
        let tx_power = encode_d80_tx_power_level_request(&levels);
        assert(tx_power@ =~= board_tx_power_request());
        let exchanged = execute_config_command(
            self.io,
            self.product,
            MM_SET_TX_POWER_INDEX_LEVEL_REQUEST,
            MM_SET_TX_POWER_INDEX_LEVEL_CONFIRM,
            MM_TASK_ID,
            DRIVER_TASK_ID,
            &tx_power,
            self.transmit_storage,
            self.receive_storage,
            self.response_timeout_ms,
        );
        let ghost first = transaction_view(exchanged);
        match exchanged {
            Ok(_) => {},
            Err(error) => {
                assert(self.io.bus_log().skip(start.len() as int).len() == 0 ==> self.io.bus_log()
                    =~= start);
                proof {
                    let operations = appended(start, self.io.bus_log());
                    assert(operations.take(operations.len() as int) =~= operations);
                    assert(operations.skip(operations.len() as int) =~= Seq::<BusOperation>::empty());
                    assert(round_trip(
                        self.product,
                        MM_SET_TX_POWER_INDEX_LEVEL_REQUEST,
                        MM_TASK_ID,
                        DRIVER_TASK_ID,
                        board_tx_power_request(),
                        MM_SET_TX_POWER_INDEX_LEVEL_CONFIRM,
                        self.transmit_storage@.len(),
                        self.response_timeout_ms,
                        operations.take(operations.len() as int),
                        old(self).receive_storage@,
                        self.receive_storage@,
                        first,
                    ));
                    assert(calibration_step(
                        self.product,
                        self.transmit_storage@.len(),
                        self.response_timeout_ms,
                        first,
                        operations.skip(operations.len() as int),
                        self.receive_storage@,
                        self.receive_storage@,
                        Err::<RfCalibrationAddresses, AicRfError<CommandIoError<I>>>(AicRfError::Transaction(error)),
                    ));
                }
                return Err(AicRfError::Transaction(error));
            },
        }
        let ghost middle = self.io.bus_log();
        let ghost middle_received = self.receive_storage@;
        let calibration = encode_d80_rf_calibration_request();
        let second = execute_config_command(
            self.io,
            self.product,
            MM_SET_RF_CALIB_REQUEST,
            MM_SET_RF_CALIB_CONFIRM,
            MM_TASK_ID,
            DRIVER_TASK_ID,
            &calibration,
            self.transmit_storage,
            self.receive_storage,
            self.response_timeout_ms,
        );
        proof {
            crate::firmware::lemma_sent_command_kept(
                self.product,
                start,
                middle,
                self.io.bus_log(),
                spec_command_transfer(
                    spec_command_header_mode(self.product),
                    MM_SET_TX_POWER_INDEX_LEVEL_REQUEST,
                    MM_TASK_ID,
                    DRIVER_TASK_ID,
                    tx_power@,
                ),
            );
        }
        let ghost second_outcome = transaction_view(second);
        let response = match second {
            Ok(response) => response,
            Err(error) => {
                proof {
                    lemma_rf_board_run(
                        self.product,
                        self.transmit_storage@.len(),
                        self.response_timeout_ms,
                        start,
                        middle,
                        self.io.bus_log(),
                        old(self).receive_storage@,
                        middle_received,
                        self.receive_storage@,
                        first,
                        second_outcome,
                        Err::<RfCalibrationAddresses, AicRfError<CommandIoError<I>>>(AicRfError::Transaction(error)),
                    );
                }
                return Err(AicRfError::Transaction(error));
            },
        };
        let result = match decode_rf_calibration_confirmation(response.parameter) {
            Ok(addresses) => {
                assert(received_response(self.receive_storage@, MM_SET_RF_CALIB_CONFIRM, response@));
                proof {
                    crate::firmware::lemma_sent_command_kept(
                        self.product,
                        start,
                        middle,
                        self.io.bus_log(),
                        spec_command_transfer(
                            spec_command_header_mode(self.product),
                            MM_SET_RF_CALIB_REQUEST,
                            MM_TASK_ID,
                            DRIVER_TASK_ID,
                            calibration@,
                        ),
                    );
                }
                Ok(addresses)
            },
            Err(error) => {
                assert(received_response(self.receive_storage@, MM_SET_RF_CALIB_CONFIRM, response@));
                proof {
                    crate::firmware::lemma_sent_command_kept(
                        self.product,
                        start,
                        middle,
                        self.io.bus_log(),
                        spec_command_transfer(
                            spec_command_header_mode(self.product),
                            MM_SET_RF_CALIB_REQUEST,
                            MM_TASK_ID,
                            DRIVER_TASK_ID,
                            calibration@,
                        ),
                    );
                }
                Err(AicRfError::Decode(error))
            },
        };
        proof {
            lemma_rf_board_run(
                    self.product,
                    self.transmit_storage@.len(),
                    self.response_timeout_ms,
                    start,
                    middle,
                    self.io.bus_log(),
                    old(self).receive_storage@,
                    middle_received,
                    self.receive_storage@,
                    first,
                    second_outcome,
                    result,
            );
        }
        result
    }
}

} // verus!
