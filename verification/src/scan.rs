//! Scanning: the D80 full-scan request, the scan events the firmware sends back (results,
//! channel surveys, completion), and the BSS fields of a beacon or probe response.
use vstd::prelude::*;

use crate::bytes::{
    array6_at, le16_at, le32, le32_at, push_le32, push_slice, push_zeros, read_le16, read_le32,
    saturated, usize_from_u16, usize_from_u8, zeros,
};
use crate::device::{Aic8800Product, spec_command_header_mode};
use crate::firmware::DRIVER_TASK_ID;
use crate::me::{channel_slots, channels_2ghz, channels_5ghz, push_channels};
use crate::protocol::{
    ConfigResponse, ConfigResponseView, ProtocolError, spec_parse_config_response,
};
use crate::response::{AicResponseError, AicResponseIo, receive_outcome, receive_pending_frame};
use crate::sdio::{AicCommandIo, BusOperation, CommandIoError, appended, log_extends};
use crate::transaction::{
    AicTransactionError, execute_config_command, received_response, round_trip, sent_command,
    spec_command_transfer, transaction_failure_stated, transaction_view,
};

verus! {

/// Task identifier of the scan task.
pub const SCANU_TASK_ID: u16 = 4;

pub const SCANU_START_REQUEST: u16 = 0x1000;

pub const SCANU_START_CONFIRM: u16 = 0x1001;

pub const SCANU_RESULT_INDICATION: u16 = 0x1004;

pub const SCANU_START_ADDITIONAL_CONFIRM: u16 = 0x1009;

pub const MM_CHANNEL_SURVEY_INDICATION: u16 = 79;

/// The 2.4 GHz channel frequencies, in MHz.
const CHANNELS_2GHZ: [u16; 14] = [
    2412, 2417, 2422, 2427, 2432, 2437, 2442, 2447, 2452, 2457, 2462, 2467, 2472, 2484,
];

/// The 5 GHz channel frequencies, in MHz.
const CHANNELS_5GHZ: [u16; 25] = [
    5180, 5200, 5220, 5240, 5260, 5280, 5300, 5320, 5500, 5520, 5540, 5560, 5580, 5600, 5620,
    5640, 5660, 5680, 5700, 5720, 5745, 5765, 5785, 5805, 5825,
];

#[derive(Clone, Copy, Debug, Eq, PartialEq, Structural)]
pub struct ScanEncodeError {
    pub required: usize,
    pub available: usize,
}

#[derive(Clone, Copy, Debug, Eq, PartialEq, Structural)]
pub enum ScanDecodeError {
    TruncatedResult { required: usize, available: usize },
    TruncatedCompletion { required: usize, available: usize },
    TruncatedChannelSurvey { required: usize, available: usize },
    TruncatedAggregateFrame { required: usize, available: usize },
    TruncatedManagementFrame { required: usize, available: usize },
    UnsupportedManagementFrame { frame_control: u16 },
    TruncatedInformationElement { required: usize, available: usize },
    MissingSsidInformationElement,
}

/// A scan result indication; the frame borrows from the received parameter.
#[derive(Clone, Copy, Debug, Eq, PartialEq)]
pub struct ScanResult<'a> {
    pub length: u16,
    pub frame_control: u16,
    pub center_frequency_mhz: u16,
    pub band: u8,
    pub station_index: u8,
    pub interface_index: u8,
    pub rssi_dbm: i8,
    pub frame: &'a [u8],
}

/// A scan result as plain values.
pub struct ScanResultView {
    pub length: u16,
    pub frame_control: u16,
    pub center_frequency_mhz: u16,
    pub band: u8,
    pub station_index: u8,
    pub interface_index: u8,
    pub rssi_dbm: i8,
    pub frame: Seq<u8>,
}

impl<'a> View for ScanResult<'a> {
    type V = ScanResultView;

    open spec fn view(&self) -> ScanResultView {
        ScanResultView {
            length: self.length,
            frame_control: self.frame_control,
            center_frequency_mhz: self.center_frequency_mhz,
            band: self.band,
            station_index: self.station_index,
            interface_index: self.interface_index,
            rssi_dbm: self.rssi_dbm,
            frame: self.frame@,
        }
    }
}

#[derive(Clone, Copy, Debug, Eq, PartialEq, Structural)]
pub struct ScanCompletion {
    pub interface_index: u8,
    pub status: u8,
    pub result_count: u8,
}

#[derive(Clone, Copy, Debug, Eq, PartialEq, Structural)]
pub struct ChannelSurvey {
    pub frequency_mhz: u16,
    pub noise_dbm: i8,
    pub channel_time_ms: u32,
    pub channel_busy_time_ms: u32,
}

/// The BSS fields of a beacon or probe response; SSID and elements borrow from the frame.
#[derive(Clone, Copy, Debug, Eq, PartialEq)]
pub struct BssDescription<'a> {
    pub bssid: [u8; 6],
    pub beacon_interval: u16,
    pub capability: u16,
    pub ssid: &'a [u8],
    pub information_elements: &'a [u8],
}

/// A BSS description as plain values.
pub struct BssDescriptionView {
    pub bssid: Seq<u8>,
    pub beacon_interval: u16,
    pub capability: u16,
    pub ssid: Seq<u8>,
    pub information_elements: Seq<u8>,
}

impl<'a> View for BssDescription<'a> {
    type V = BssDescriptionView;

    open spec fn view(&self) -> BssDescriptionView {
        BssDescriptionView {
            bssid: self.bssid@,
            beacon_interval: self.beacon_interval,
            capability: self.capability,
            ssid: self.ssid@,
            information_elements: self.information_elements@,
        }
    }
}

/// What the scan task sends back.
#[derive(Clone, Copy, Debug, Eq, PartialEq)]
pub enum ScanEvent<'a> {
    Result(ScanResult<'a>),
    ChannelSurvey(ChannelSurvey),
    Complete(ScanCompletion),
}

/// A scan event as plain values.
pub enum ScanEventView {
    Result(ScanResultView),
    ChannelSurvey(ChannelSurvey),
    Complete(ScanCompletion),
}

impl<'a> View for ScanEvent<'a> {
    type V = ScanEventView;

    open spec fn view(&self) -> ScanEventView {
        match self {
            ScanEvent::Result(result) => ScanEventView::Result(result@),
            ScanEvent::ChannelSurvey(survey) => ScanEventView::ChannelSurvey(*survey),
            ScanEvent::Complete(completion) => ScanEventView::Complete(*completion),
        }
    }
}

#[derive(Clone, Copy, Debug, Eq, PartialEq)]
pub enum AicScanError<E> {
    Encode(ScanEncodeError),
    Decode(ScanDecodeError),
    Transaction(AicTransactionError<E>),
    Receive(AicResponseError<E>),
    Protocol(ProtocolError),
    UnexpectedMessageId { actual: u16 },
}

// ---------------------------------------------------------------------------
// The scan request.
// ---------------------------------------------------------------------------

/// The 376-byte full-scan parameter of the D80 on interface `interface_index`: every
/// 2.4 and 5 GHz channel, the broadcast BSSID, no SSID, CCK allowed, default duration.
pub open spec fn d80_full_scan_parameters(interface_index: u8) -> Seq<u8> {
    channel_slots(channels_2ghz(), 0) + channel_slots(channels_5ghz(), 1) + zeros(118) + seq![
        0xffu8,
        0xff,
        0xff,
        0xff,
        0xff,
        0xff,
    ] + zeros(8) + seq![interface_index, 39u8, 0u8, 0u8] + zeros(2) + le32(0)
}

/// Each channel definition takes six bytes.
proof fn lemma_slots_length(frequencies: Seq<u16>, band: u8)
    ensures
        channel_slots(frequencies, band).len() == 6 * frequencies.len(),
    decreases frequencies.len(),
{
    if frequencies.len() > 0 {
        lemma_slots_length(frequencies.drop_last(), band);
    }
}

/// Writes the D80 full-scan parameter at the front of `output`.
pub fn encode_d80_full_scan_parameters(output: &mut [u8], interface_index: u8) -> (result: Result<
    usize,
    ScanEncodeError,
>)
    ensures
        old(output)@.len() < 376 ==> result == Err::<usize, ScanEncodeError>(
            ScanEncodeError { required: 376, available: old(output).len() },
        ) && final(output)@ == old(output)@,
        old(output)@.len() >= 376 ==> result == Ok::<usize, ScanEncodeError>(376) && final(output)@
            == d80_full_scan_parameters(interface_index) + old(output)@.skip(376),
{
    if output.len() < 376 {
        return Err(ScanEncodeError { required: 376, available: output.len() });
    }
    let channels_2ghz_array = CHANNELS_2GHZ;
    let channels_5ghz_array = CHANNELS_5GHZ;
    assert(channels_2ghz_array@ =~= channels_2ghz());
    assert(channels_5ghz_array@ =~= channels_5ghz());
    let mut parameter: Vec<u8> = Vec::new();
    push_channels(&mut parameter, &channels_2ghz_array, 0);
    push_channels(&mut parameter, &channels_5ghz_array, 1);
    push_zeros(&mut parameter, 118);
    push_slice(&mut parameter, &[0xff, 0xff, 0xff, 0xff, 0xff, 0xff]);
    push_zeros(&mut parameter, 8);
    push_slice(&mut parameter, &[interface_index, 39, 0, 0]);
    push_zeros(&mut parameter, 2);
    push_le32(&mut parameter, 0);
    assert(parameter@ =~= d80_full_scan_parameters(interface_index));
    proof {
        lemma_slots_length(channels_2ghz(), 0);
        lemma_slots_length(channels_5ghz(), 1);
    }
    crate::bytes::copy_prefix(output, parameter.as_slice());
    Ok(376)
}

// ---------------------------------------------------------------------------
// Scan events.
// ---------------------------------------------------------------------------

/// A scan result: the frame length, frame control, centre frequency, band, station,
/// interface, signal strength, two reserved bytes, then the frame.
pub open spec fn spec_decode_scan_result(parameter: Seq<u8>) -> Result<ScanResultView, ScanDecodeError> {
    if parameter.len() < 12 {
        Err(ScanDecodeError::TruncatedResult { required: 12, available: parameter.len() as usize })
    } else if parameter.len() < 12 + le16_at(parameter, 0) {
        Err(
            ScanDecodeError::TruncatedResult {
                required: (12 + le16_at(parameter, 0)) as usize,
                available: parameter.len() as usize,
            },
        )
    } else {
        Ok(
            ScanResultView {
                length: le16_at(parameter, 0),
                frame_control: le16_at(parameter, 2),
                center_frequency_mhz: le16_at(parameter, 4),
                band: parameter[6],
                station_index: parameter[7],
                interface_index: parameter[8],
                rssi_dbm: parameter[9] as i8,
                frame: parameter.subrange(12, 12 + le16_at(parameter, 0)),
            },
        )
    }
}

/// Reads a scan result indication; the frame borrows from `parameter`.
pub fn decode_scan_result(parameter: &[u8]) -> (result: Result<ScanResult<'_>, ScanDecodeError>)
    ensures
        match result {
            Ok(scan) => spec_decode_scan_result(parameter@) == Ok::<ScanResultView, ScanDecodeError>(
                scan@,
            ),
            Err(error) => spec_decode_scan_result(parameter@) == Err::<
                ScanResultView,
                ScanDecodeError,
            >(error),
        },
{
    if parameter.len() < 12 {
        return Err(ScanDecodeError::TruncatedResult { required: 12, available: parameter.len() });
    }
    let length = read_le16(parameter, 0);
    let required = 12 + usize_from_u16(length);
    if parameter.len() < required {
        return Err(ScanDecodeError::TruncatedResult { required, available: parameter.len() });
    }
    Ok(
        ScanResult {
            length,
            frame_control: read_le16(parameter, 2),
            center_frequency_mhz: read_le16(parameter, 4),
            band: parameter[6],
            station_index: parameter[7],
            interface_index: parameter[8],
            rssi_dbm: parameter[9] as i8,
            frame: &parameter[12..required],
        },
    )
}

/// The scan completion: interface, status and number of results.
pub open spec fn spec_decode_scan_completion(parameter: Seq<u8>) -> Result<ScanCompletion, ScanDecodeError> {
    if parameter.len() < 3 {
        Err(ScanDecodeError::TruncatedCompletion { required: 3, available: parameter.len() as usize })
    } else {
        Ok(
            ScanCompletion {
                interface_index: parameter[0],
                status: parameter[1],
                result_count: parameter[2],
            },
        )
    }
}

/// Reads a scan completion.
pub fn decode_scan_start_confirmation(parameter: &[u8]) -> (result: Result<ScanCompletion, ScanDecodeError>)
    ensures
        result == spec_decode_scan_completion(parameter@),
{
    if parameter.len() < 3 {
        return Err(ScanDecodeError::TruncatedCompletion { required: 3, available: parameter.len() });
    }
    Ok(ScanCompletion { interface_index: parameter[0], status: parameter[1], result_count: parameter[2] })
}

/// A channel survey: frequency, noise, a reserved byte, channel time and busy time.
pub open spec fn spec_decode_channel_survey(parameter: Seq<u8>) -> Result<ChannelSurvey, ScanDecodeError> {
    if parameter.len() < 12 {
        Err(
            ScanDecodeError::TruncatedChannelSurvey {
                required: 12,
                available: parameter.len() as usize,
            },
        )
    } else {
        Ok(
            ChannelSurvey {
                frequency_mhz: le16_at(parameter, 0),
                noise_dbm: parameter[2] as i8,
                channel_time_ms: le32_at(parameter, 4),
                channel_busy_time_ms: le32_at(parameter, 8),
            },
        )
    }
}

/// Reads a channel survey.
pub fn decode_channel_survey(parameter: &[u8]) -> (result: Result<ChannelSurvey, ScanDecodeError>)
    ensures
        result == spec_decode_channel_survey(parameter@),
{
    if parameter.len() < 12 {
        return Err(ScanDecodeError::TruncatedChannelSurvey { required: 12, available: parameter.len() });
    }
    Ok(
        ChannelSurvey {
            frequency_mhz: read_le16(parameter, 0),
            noise_dbm: parameter[2] as i8,
            channel_time_ms: read_le32(parameter, 4),
            channel_busy_time_ms: read_le32(parameter, 8),
        },
    )
}

/// The event a response carries, or why it is not a scan event.
pub open spec fn spec_decode_scan_event<E>(response: ConfigResponseView) -> Result<
    ScanEventView,
    AicScanError<E>,
> {
    if response.id == SCANU_RESULT_INDICATION {
        match spec_decode_scan_result(response.parameter) {
            Ok(result) => Ok(ScanEventView::Result(result)),
            Err(error) => Err(AicScanError::Decode(error)),
        }
    } else if response.id == SCANU_START_CONFIRM {
        match spec_decode_scan_completion(response.parameter) {
            Ok(completion) => Ok(ScanEventView::Complete(completion)),
            Err(error) => Err(AicScanError::Decode(error)),
        }
    } else if response.id == MM_CHANNEL_SURVEY_INDICATION {
        match spec_decode_channel_survey(response.parameter) {
            Ok(survey) => Ok(ScanEventView::ChannelSurvey(survey)),
            Err(error) => Err(AicScanError::Decode(error)),
        }
    } else {
        Err(AicScanError::UnexpectedMessageId { actual: response.id })
    }
}

fn decode_scan_event<'a, E>(response: ConfigResponse<'a>) -> (result: Result<ScanEvent<'a>, AicScanError<E>>)
    ensures
        match result {
            Ok(event) => spec_decode_scan_event::<E>(response@) == Ok::<ScanEventView, AicScanError<E>>(
                event@,
            ),
            Err(error) => spec_decode_scan_event::<E>(response@) == Err::<
                ScanEventView,
                AicScanError<E>,
            >(error),
        },
{
    if response.id == SCANU_RESULT_INDICATION {
        match decode_scan_result(response.parameter) {
            Ok(result) => Ok(ScanEvent::Result(result)),
            Err(error) => Err(AicScanError::Decode(error)),
        }
    } else if response.id == SCANU_START_CONFIRM {
        match decode_scan_start_confirmation(response.parameter) {
            Ok(completion) => Ok(ScanEvent::Complete(completion)),
            Err(error) => Err(AicScanError::Decode(error)),
        }
    } else if response.id == MM_CHANNEL_SURVEY_INDICATION {
        match decode_channel_survey(response.parameter) {
            Ok(survey) => Ok(ScanEvent::ChannelSurvey(survey)),
            Err(error) => Err(AicScanError::Decode(error)),
        }
    } else {
        Err(AicScanError::UnexpectedMessageId { actual: response.id })
    }
}

// ---------------------------------------------------------------------------
// Information elements and BSS descriptions.
// ---------------------------------------------------------------------------

/// The first element with identifier `requested_id` at or after `offset`, as its whole
/// bytes (identifier and length included), none when the elements end first, or the
/// first element that runs past the end.
pub open spec fn spec_find_element(elements: Seq<u8>, offset: nat, requested_id: u8) -> Result<
    Option<Seq<u8>>,
    ScanDecodeError,
>
    decreases elements.len() - offset,
{
    if offset < elements.len() {
        if elements.len() - offset < 2 {
            Err(
                ScanDecodeError::TruncatedInformationElement {
                    required: saturated(offset + 2int),
                    available: elements.len() as usize,
                },
            )
        } else if elements.len() < offset + 2 + elements[offset + 1int] {
            Err(
                ScanDecodeError::TruncatedInformationElement {
                    required: saturated(offset + 2 + elements[offset + 1int]),
                    available: elements.len() as usize,
                },
            )
        } else if elements[offset as int] == requested_id {
            Ok(Some(elements.subrange(offset as int, offset + 2 + elements[offset + 1int])))
        } else {
            spec_find_element(
                elements,
                (offset + 2 + elements[offset + 1int]) as nat,
                requested_id,
            )
        }
    } else {
        Ok(None)
    }
}

/// Finds the first information element with identifier `requested_id`; the element
/// borrows from the input.
pub fn find_information_element(information_elements: &[u8], requested_id: u8) -> (result: Result<
    Option<&[u8]>,
    ScanDecodeError,
>)
    ensures
        match result {
            Ok(Some(element)) => spec_find_element(information_elements@, 0, requested_id) == Ok::<
                Option<Seq<u8>>,
                ScanDecodeError,
            >(Some(element@)),
            Ok(None) => spec_find_element(information_elements@, 0, requested_id) == Ok::<
                Option<Seq<u8>>,
                ScanDecodeError,
            >(None),
            Err(error) => spec_find_element(information_elements@, 0, requested_id) == Err::<
                Option<Seq<u8>>,
                ScanDecodeError,
            >(error),
        },
{
    let ghost whole = spec_find_element(information_elements@, 0, requested_id);
    let mut offset: usize = 0;
    while offset < information_elements.len()
        invariant
            offset <= information_elements@.len(),
            information_elements@.len() == information_elements.len(),
            whole == spec_find_element(information_elements@, 0, requested_id),
            whole == spec_find_element(information_elements@, offset as nat, requested_id),
        decreases information_elements@.len() - offset,
    {
        if information_elements.len() - offset < 2 {
            let required = if offset <= usize::MAX - 2 {
                offset + 2
            } else {
                usize::MAX
            };
            return Err(
                ScanDecodeError::TruncatedInformationElement {
                    required,
                    available: information_elements.len(),
                },
            );
        }
        let element_id = information_elements[offset];
        let element_length = usize_from_u8(information_elements[offset + 1]);
        if offset > usize::MAX - 2 - element_length {
            return Err(
                ScanDecodeError::TruncatedInformationElement {
                    required: usize::MAX,
                    available: information_elements.len(),
                },
            );
        }
        let required = offset + 2 + element_length;
        if information_elements.len() < required {
            return Err(
                ScanDecodeError::TruncatedInformationElement {
                    required,
                    available: information_elements.len(),
                },
            );
        }
        if element_id == requested_id {
            return Ok(Some(&information_elements[offset..required]));
        }
        offset = required;
    }
    Ok(None)
}

/// The BSS fields of a beacon or probe response, or why they cannot be read: the frame
/// needs its 24-byte header and 12 bytes of fixed fields, and an SSID element among the
/// elements that follow.
pub open spec fn spec_parse_bss_description(frame: Seq<u8>) -> Result<
    BssDescriptionView,
    ScanDecodeError,
> {
    let frame_control = le16_at(frame, 0);
    let kind = frame_control & 0x00fcu16;
    let elements = frame.skip(36);
    if frame.len() < 36 {
        Err(
            ScanDecodeError::TruncatedManagementFrame {
                required: 36,
                available: frame.len() as usize,
            },
        )
    } else if kind != 0x0050 && kind != 0x0080 {
        Err(ScanDecodeError::UnsupportedManagementFrame { frame_control })
    } else {
        match spec_find_element(elements, 0, 0) {
            Err(error) => Err(error),
            Ok(None) => Err(ScanDecodeError::MissingSsidInformationElement),
            Ok(Some(element)) => Ok(
                BssDescriptionView {
                    bssid: frame.subrange(16, 22),
                    beacon_interval: le16_at(frame, 32),
                    capability: le16_at(frame, 34),
                    ssid: element.skip(2),
                    information_elements: elements,
                },
            ),
        }
    }
}

/// Reads the BSS fields of a beacon or probe response; SSID and elements borrow from it.
pub fn parse_bss_description(frame: &[u8]) -> (result: Result<BssDescription<'_>, ScanDecodeError>)
    ensures
        match result {
            Ok(description) => spec_parse_bss_description(frame@) == Ok::<
                BssDescriptionView,
                ScanDecodeError,
            >(description@),
            Err(error) => spec_parse_bss_description(frame@) == Err::<
                BssDescriptionView,
                ScanDecodeError,
            >(error),
        },
{
    if frame.len() < 36 {
        return Err(ScanDecodeError::TruncatedManagementFrame { required: 36, available: frame.len() });
    }
    let frame_control = read_le16(frame, 0);
    let kind = frame_control & 0x00fc;
    if kind != 0x0050 && kind != 0x0080 {
        return Err(ScanDecodeError::UnsupportedManagementFrame { frame_control });
    }
    let information_elements = &frame[36..frame.len()];
    assert(information_elements@ =~= frame@.skip(36));
    let element = match find_information_element(information_elements, 0) {
        Err(error) => return Err(error),
        Ok(None) => return Err(ScanDecodeError::MissingSsidInformationElement),
        Ok(Some(element)) => element,
    };
    proof {
        lemma_found_element_has_header(information_elements@, 0, 0);
    }
    let ssid = &element[2..element.len()];
    assert(ssid@ =~= element@.skip(2));
    Ok(
        BssDescription {
            bssid: array6_at(frame, 16),
            beacon_interval: read_le16(frame, 32),
            capability: read_le16(frame, 34),
            ssid,
            information_elements,
        },
    )
}

/// A found element holds at least its identifier and length.
proof fn lemma_found_element_has_header(elements: Seq<u8>, offset: nat, requested_id: u8)
    ensures
        spec_find_element(elements, offset, requested_id) matches Ok(Some(element)) ==> element.len()
            >= 2,
    decreases elements.len() - offset,
{
    if offset < elements.len() && elements.len() - offset >= 2 && elements.len() >= offset + 2
        + elements[offset + 1int] && elements[offset as int] != requested_id {
        lemma_found_element_has_header(
            elements,
            (offset + 2 + elements[offset + 1int]) as nat,
            requested_id,
        );
    }
}

// ---------------------------------------------------------------------------
// The scan client.
// ---------------------------------------------------------------------------

/// `length` rounded up to a multiple of four.
pub open spec fn align4(length: nat) -> nat {
    ((length + 3) / 4) * 4
}

/// The frame at `offset` of a received aggregate of `aggregate_length` bytes, as
/// `(start, end, next offset)`: a two-byte length, two more header bytes and the
/// message, padded to four bytes; none at the end or at a zero length; or why the
/// aggregate is malformed there.
pub open spec fn scan_aggregate_frame(input: Seq<u8>, aggregate_length: nat, offset: nat) -> Result<
    Option<(nat, nat, usize)>,
    ScanDecodeError,
> {
    let length = le16_at(input, offset as int);
    if offset >= aggregate_length {
        Ok(None)
    } else if aggregate_length - offset < 2 {
        Err(
            ScanDecodeError::TruncatedAggregateFrame {
                required: saturated(offset + 2int),
                available: aggregate_length as usize,
            },
        )
    } else if length == 0 {
        Ok(None)
    } else if offset + 4 + length > aggregate_length {
        Err(
            ScanDecodeError::TruncatedAggregateFrame {
                required: saturated(offset + 4 + length),
                available: aggregate_length as usize,
            },
        )
    } else {
        Ok(
            Some(
                (
                    offset,
                    (offset + 4 + length) as nat,
                    saturated(offset + 4int + align4(length as nat)),
                ),
            ),
        )
    }
}

fn next_aggregate_frame_bounds(input: &[u8], aggregate_length: usize, offset: usize) -> (result:
    Result<Option<(usize, usize, usize)>, ScanDecodeError>)
    requires
        aggregate_length <= input@.len(),
    ensures
        match result {
            Ok(Some((start, end, next))) => scan_aggregate_frame(
                input@,
                aggregate_length as nat,
                offset as nat,
            ) == Ok::<Option<(nat, nat, usize)>, ScanDecodeError>(
                Some((start as nat, end as nat, next)),
            ),
            Ok(None) => scan_aggregate_frame(input@, aggregate_length as nat, offset as nat) == Ok::<
                Option<(nat, nat, usize)>,
                ScanDecodeError,
            >(None),
            Err(error) => scan_aggregate_frame(input@, aggregate_length as nat, offset as nat)
                == Err::<Option<(nat, nat, usize)>, ScanDecodeError>(error),
        },
{
    if offset >= aggregate_length {
        return Ok(None);
    }
    if aggregate_length - offset < 2 {
        let required = if offset <= usize::MAX - 2 {
            offset + 2
        } else {
            usize::MAX
        };
        return Err(ScanDecodeError::TruncatedAggregateFrame { required, available: aggregate_length });
    }
    let packet_length = usize_from_u16(read_le16(input, offset));
    if packet_length == 0 {
        return Ok(None);
    }
    if offset > usize::MAX - 4 - packet_length {
        return Err(
            ScanDecodeError::TruncatedAggregateFrame { required: usize::MAX, available: aggregate_length },
        );
    }
    let frame_end = offset + 4 + packet_length;
    if frame_end > aggregate_length {
        return Err(ScanDecodeError::TruncatedAggregateFrame { required: frame_end, available: aggregate_length });
    }
    let aligned = (packet_length + 3) / 4 * 4;
    let next_offset = if offset <= usize::MAX - 4 - aligned {
        offset + 4 + aligned
    } else {
        usize::MAX
    };
    Ok(Some((offset, frame_end, next_offset)))
}

/// Whether a start request with `parameter` to the scan task was sent within
/// `operations`.
pub open spec fn scan_request_sent(
    product: Aic8800Product,
    operations: Seq<BusOperation>,
    parameter: Seq<u8>,
) -> bool {
    sent_command(
        product,
        operations,
        spec_command_transfer(
            spec_command_header_mode(product),
            SCANU_START_REQUEST,
            SCANU_TASK_ID,
            DRIVER_TASK_ID,
            parameter,
        ),
    )
}

/// Whether `received` holds the additional start confirmation.
pub open spec fn scan_start_confirmed(received: Seq<u8>) -> bool {
    exists|response: ConfigResponseView|
        #[trigger] received_response(received, SCANU_START_ADDITIONAL_CONFIRM, response)
}

/// Whether `event` is what the response framed at `received[start..end]` carries.
pub open spec fn event_framed<E>(received: Seq<u8>, start: int, end: int, event: ScanEventView) -> bool {
    &&& 0 <= start <= end <= received.len()
    &&& spec_parse_config_response(received.subrange(start, end)) matches Ok(response)
        && spec_decode_scan_event::<E>(response) == Ok::<ScanEventView, AicScanError<E>>(event)
}

/// The transaction error a scan request ended with, if it ended with one.
pub open spec fn scan_transaction_error<T, E>(result: Result<T, AicScanError<E>>) -> Option<
    AicTransactionError<E>,
> {
    match result {
        Err(AicScanError::Transaction(error)) => Some(error),
        _ => None,
    }
}

/// Whether `result` is what a scan start returns for the round trip `outcome`.
pub open spec fn scan_start_result<E>(
    outcome: Result<ConfigResponseView, AicTransactionError<E>>,
    result: Result<(), AicScanError<E>>,
) -> bool {
    match outcome {
        Ok(_) => result == Ok::<(), AicScanError<E>>(()),
        Err(error) => result == Err::<(), AicScanError<E>>(AicScanError::Transaction(error)),
    }
}

/// The event of the frame at `start..end` of `received`: its configuration response's scan
/// event, or the error that parsing or decoding it gives.
pub open spec fn scan_frame_event<E>(received: Seq<u8>, start: int, end: int) -> Result<
    ScanEventView,
    AicScanError<E>,
> {
    match spec_parse_config_response(received.subrange(start, end)) {
        Err(error) => Err(AicScanError::Protocol(error)),
        Ok(response) => spec_decode_scan_event::<E>(response),
    }
}

/// An event result read through the view of the event it carries.
pub open spec fn scan_result_view<'a, E>(
    result: Result<ScanEvent<'a>, AicScanError<E>>,
) -> Result<ScanEventView, AicScanError<E>> {
    match result {
        Ok(event) => Ok(event@),
        Err(error) => Err(error),
    }
}

/// The timeout a wait for an event ends with.
pub open spec fn scan_timeout<E>(timeout: u32) -> Result<ScanEventView, AicScanError<E>> {
    Err(AicScanError::Receive(AicResponseError::Timeout { milliseconds: timeout }))
}

/// Whether `operations` are what a wait for the next scan event performed, with
/// `elapsed` of `timeout` rounds spent, from receive storage `received` holding an
/// aggregate of `length` bytes handed out up to `offset`, leaving storage `after` with an
/// aggregate of `after_length` bytes handed out up to `after_offset`, and returning
/// `result`. A round with a frame left in the aggregate returns that frame's event (or the
/// aggregate's malformation) at once and moves the offset to the next frame; a round with
/// an exhausted aggregate polls as `receive_pending_frame` does: a received transfer
/// becomes the aggregate from offset 0, a poll that found nothing is followed by a 1 ms
/// wait; once `timeout` rounds have passed without an event the wait times out.
pub open spec fn scan_wait<E>(
    product: Aic8800Product,
    timeout: u32,
    elapsed: nat,
    operations: Seq<BusOperation>,
    received: Seq<u8>,
    length: nat,
    offset: nat,
    after: Seq<u8>,
    after_length: nat,
    after_offset: nat,
    result: Result<ScanEventView, AicScanError<E>>,
) -> bool
    decreases timeout - elapsed,
{
    if offset < length {
        match scan_aggregate_frame(received, length, offset) {
            Err(error) => operations.len() == 0 && after == received && after_length == length
                && after_offset == offset && result == Err::<ScanEventView, AicScanError<E>>(
                AicScanError::Decode(error),
            ),
            Ok(Some((start, end, next))) => operations.len() == 0 && after == received && after_length
                == length && after_offset == next && result == scan_frame_event::<E>(
                received,
                start as int,
                end as int,
            ),
            Ok(None) => if elapsed >= timeout {
                operations.len() == 0 && after == received && after_length == length && after_offset
                    == length && result == scan_timeout::<E>(timeout)
            } else {
                scan_wait(
                    product,
                    timeout,
                    elapsed + 1,
                    operations,
                    received,
                    length,
                    length,
                    after,
                    after_length,
                    after_offset,
                    result,
                )
            },
        }
    } else {
        exists|split: int, polled: Result<Option<usize>, AicResponseError<E>>, middle: Seq<u8>|
            #![trigger receive_outcome(product, operations.take(split), received, middle, polled)]
            {
                &&& 0 <= split <= operations.len()
                &&& receive_outcome(product, operations.take(split), received, middle, polled)
                &&& match polled {
                    Err(error) => split == operations.len() && after == middle && after_length == length
                        && after_offset == offset && result == Err::<ScanEventView, AicScanError<E>>(
                        AicScanError::Receive(error),
                    ),
                    Ok(Some(n)) => if elapsed >= timeout {
                        split == operations.len() && after == middle && after_length == n
                            && after_offset == 0 && result == scan_timeout::<E>(timeout)
                    } else {
                        scan_wait(
                            product,
                            timeout,
                            elapsed + 1,
                            operations.skip(split),
                            middle,
                            n as nat,
                            0,
                            after,
                            after_length,
                            after_offset,
                            result,
                        )
                    },
                    Ok(None) => if elapsed >= timeout {
                        split == operations.len() && after == middle && after_length == length
                            && after_offset == offset && result == scan_timeout::<E>(timeout)
                    } else {
                        &&& split < operations.len()
                        &&& operations[split] == BusOperation::DelayMs { milliseconds: 1 }
                        &&& scan_wait(
                            product,
                            timeout,
                            elapsed + 1,
                            operations.skip(split + 1),
                            middle,
                            length,
                            offset,
                            after,
                            after_length,
                            after_offset,
                            result,
                        )
                    },
                }
            }
    }
}

/// A poll that found nothing pending, then its wait, in front of the rest of a wait.
proof fn lemma_scan_idle_round<E>(
    product: Aic8800Product,
    timeout: u32,
    elapsed: nat,
    round: Seq<BusOperation>,
    received: Seq<u8>,
    length: nat,
    offset: nat,
    rest: Seq<BusOperation>,
    after: Seq<u8>,
    after_length: nat,
    after_offset: nat,
    result: Result<ScanEventView, AicScanError<E>>,
)
    requires
        elapsed < timeout,
        offset >= length,
        receive_outcome(product, round, received, received, Ok::<Option<usize>, AicResponseError<E>>(None)),
        scan_wait(
            product,
            timeout,
            elapsed + 1,
            rest,
            received,
            length,
            offset,
            after,
            after_length,
            after_offset,
            result,
        ),
    ensures
        scan_wait(
            product,
            timeout,
            elapsed,
            round + seq![BusOperation::DelayMs { milliseconds: 1 }] + rest,
            received,
            length,
            offset,
            after,
            after_length,
            after_offset,
            result,
        ),
{
    let operations = round + seq![BusOperation::DelayMs { milliseconds: 1 }] + rest;
    let split = round.len() as int;
    assert(operations.take(split) =~= round);
    assert(operations.skip(split + 1) =~= rest);
    assert(operations[split] == BusOperation::DelayMs { milliseconds: 1 });
    assert(receive_outcome(
        product,
        operations.take(split),
        received,
        received,
        Ok::<Option<usize>, AicResponseError<E>>(None),
    ));
}

/// A poll that received a transfer in front of the rest of a wait, which starts on that
/// transfer as the aggregate.
proof fn lemma_scan_received_round<E>(
    product: Aic8800Product,
    timeout: u32,
    elapsed: nat,
    round: Seq<BusOperation>,
    received: Seq<u8>,
    length: nat,
    offset: nat,
    middle: Seq<u8>,
    n: usize,
    rest: Seq<BusOperation>,
    after: Seq<u8>,
    after_length: nat,
    after_offset: nat,
    result: Result<ScanEventView, AicScanError<E>>,
)
    requires
        elapsed < timeout,
        offset >= length,
        receive_outcome(product, round, received, middle, Ok::<Option<usize>, AicResponseError<E>>(Some(n))),
        scan_wait(
            product,
            timeout,
            elapsed + 1,
            rest,
            middle,
            n as nat,
            0,
            after,
            after_length,
            after_offset,
            result,
        ),
    ensures
        scan_wait(
            product,
            timeout,
            elapsed,
            round + rest,
            received,
            length,
            offset,
            after,
            after_length,
            after_offset,
            result,
        ),
{
    let operations = round + rest;
    let split = round.len() as int;
    assert(operations.take(split) =~= round);
    assert(operations.skip(split) =~= rest);
    assert(receive_outcome(
        product,
        operations.take(split),
        received,
        middle,
        Ok::<Option<usize>, AicResponseError<E>>(Some(n)),
    ));
}

/// A poll that ends the wait.
proof fn lemma_scan_last_poll<E>(
    product: Aic8800Product,
    timeout: u32,
    elapsed: nat,
    round: Seq<BusOperation>,
    received: Seq<u8>,
    length: nat,
    offset: nat,
    middle: Seq<u8>,
    polled: Result<Option<usize>, AicResponseError<E>>,
    after_length: nat,
    after_offset: nat,
    result: Result<ScanEventView, AicScanError<E>>,
)
    requires
        offset >= length,
        receive_outcome(product, round, received, middle, polled),
        match polled {
            Err(error) => after_length == length && after_offset == offset && result == Err::<ScanEventView, AicScanError<E>>(
                AicScanError::Receive(error),
            ),
            Ok(Some(n)) => elapsed >= timeout && after_length == n && after_offset == 0 && result == scan_timeout::<E>(timeout),
            Ok(None) => elapsed >= timeout && after_length == length && after_offset == offset && result == scan_timeout::<E>(timeout),
        },
    ensures
        scan_wait(
            product,
            timeout,
            elapsed,
            round,
            received,
            length,
            offset,
            middle,
            after_length,
            after_offset,
            result,
        ),
{
    let split = round.len() as int;
    assert(round.take(split) =~= round);
    assert(receive_outcome(product, round.take(split), received, middle, polled));
}

/// A scanning client over a device handle and the storage the round trips use; it keeps
/// the aggregate last received and how far its frames have been handed out.
pub struct AicScanClient<'a, I> {
    io: &'a mut I,
    product: Aic8800Product,
    parameter_storage: &'a mut [u8],
    transmit_storage: &'a mut [u8],
    receive_storage: &'a mut [u8],
    response_timeout_ms: u32,
    aggregate_length: usize,
    aggregate_offset: usize,
}

impl<'a, I> AicScanClient<'a, I> where
    I: AicCommandIo + AicResponseIo<Error = <I as AicCommandIo>::Error>,
 {
    /// The bus log of the device handle.
    pub closed spec fn io_log(&self) -> Seq<BusOperation> {
        self.io.bus_log()
    }

    pub closed spec fn product(&self) -> Aic8800Product {
        self.product
    }

    /// The bytes of parameter storage.
    pub closed spec fn parameter_capacity(&self) -> nat {
        self.parameter_storage@.len()
    }

    /// What receive storage holds.
    pub closed spec fn received(&self) -> Seq<u8> {
        self.receive_storage@
    }

    pub closed spec fn response_timeout(&self) -> u32 {
        self.response_timeout_ms
    }

    /// The bytes of transmit storage.
    pub closed spec fn transmit_capacity(&self) -> nat {
        self.transmit_storage@.len()
    }

    /// The length of the aggregate last received.
    pub closed spec fn aggregate_length(&self) -> nat {
        self.aggregate_length as nat
    }

    /// Where the next frame of that aggregate starts.
    pub closed spec fn aggregate_offset(&self) -> nat {
        self.aggregate_offset as nat
    }

    /// The aggregate lies within receive storage.
    pub closed spec fn well_formed(&self) -> bool {
        self.aggregate_length <= self.receive_storage@.len()
    }

    pub fn new(
        io: &'a mut I,
        product: Aic8800Product,
        parameter_storage: &'a mut [u8],
        transmit_storage: &'a mut [u8],
        receive_storage: &'a mut [u8],
        response_timeout_ms: u32,
    ) -> (client: Self)
        ensures
            client.well_formed(),
            client.product() == product,
            client.parameter_capacity() == old(parameter_storage)@.len(),
            client.response_timeout() == response_timeout_ms,
            client.transmit_capacity() == old(transmit_storage)@.len(),
            client.aggregate_length() == 0,
            client.aggregate_offset() == 0,
    {
        AicScanClient {
            io,
            product,
            parameter_storage,
            transmit_storage,
            receive_storage,
            response_timeout_ms,
            aggregate_length: 0,
            aggregate_offset: 0,
        }
    }

    /// Starts a full scan of every D80 channel on interface `interface_index`.
    #[verifier::rlimit(60)]
    pub fn start_d80_full_scan(&mut self, interface_index: u8) -> (result: Result<
        (),
        AicScanError<<I as AicCommandIo>::Error>,
    >)
        requires
            old(self).well_formed(),
        ensures
            final(self).well_formed(),
            final(self).product() == old(self).product(),
            final(self).parameter_capacity() == old(self).parameter_capacity(),
            final(self).response_timeout() == old(self).response_timeout(),
            final(self).aggregate_length() == old(self).aggregate_length(),
            final(self).aggregate_offset() == old(self).aggregate_offset(),
            log_extends(old(self).io_log(), final(self).io_log()),
            old(self).parameter_capacity() < 376 ==> result == Err::<
                (),
                AicScanError<<I as AicCommandIo>::Error>,
            >(
                AicScanError::Encode(
                    ScanEncodeError {
                        required: 376,
                        available: old(self).parameter_capacity() as usize,
                    },
                ),
            ),
            result matches Err(AicScanError::Encode(_)) ==> old(self).parameter_capacity() < 376,
            final(self).transmit_capacity() == old(self).transmit_capacity(),
            old(self).parameter_capacity() >= 376 ==> transaction_failure_stated(
                old(self).product(),
                spec_command_transfer(
                    spec_command_header_mode(old(self).product()),
                    SCANU_START_REQUEST,
                    SCANU_TASK_ID,
                    DRIVER_TASK_ID,
                    d80_full_scan_parameters(interface_index),
                ),
                376,
                old(self).transmit_capacity(),
                old(self).response_timeout(),
                final(self).io_log().skip(old(self).io_log().len() as int),
                scan_transaction_error(result),
            ),
            result is Ok ==> scan_request_sent(
                old(self).product(),
                final(self).io_log().skip(old(self).io_log().len() as int),
                d80_full_scan_parameters(interface_index),
            ) && scan_start_confirmed(final(self).received()),
            old(self).parameter_capacity() >= 376 ==> exists|outcome: Result<ConfigResponseView, AicTransactionError<CommandIoError<I>>>|
                #[trigger] round_trip(
                    old(self).product(),
                    SCANU_START_REQUEST,
                    SCANU_TASK_ID,
                    DRIVER_TASK_ID,
                    d80_full_scan_parameters(interface_index),
                    SCANU_START_ADDITIONAL_CONFIRM,
                    old(self).transmit_capacity(),
                    old(self).response_timeout(),
                    appended(old(self).io_log(), final(self).io_log()),
                    old(self).received(),
                    final(self).received(),
                    outcome,
                ) && scan_start_result(outcome, result),
    {
        let length = match encode_d80_full_scan_parameters(self.parameter_storage, interface_index) {
            Ok(length) => length,
            Err(error) => return Err(AicScanError::Encode(error)),
        };
        proof {
            lemma_slots_length(channels_2ghz(), 0);
            lemma_slots_length(channels_5ghz(), 1);
        }
        assert(self.parameter_storage@.subrange(0, 376) =~= d80_full_scan_parameters(
            interface_index,
        ));
        let exchanged = execute_config_command(
            self.io,
            self.product,
            SCANU_START_REQUEST,
            SCANU_START_ADDITIONAL_CONFIRM,
            SCANU_TASK_ID,
            DRIVER_TASK_ID,
            &self.parameter_storage[0..length],
            self.transmit_storage,
            self.receive_storage,
            self.response_timeout_ms,
        );
        let ghost outcome = transaction_view(exchanged);
        let result = match exchanged {
            Ok(response) => {
                assert(received_response(
                    self.receive_storage@,
                    SCANU_START_ADDITIONAL_CONFIRM,
                    response@,
                ));
                Ok(())
            },
            Err(error) => Err(AicScanError::Transaction(error)),
        };
        proof {
            assert(round_trip(
                old(self).product(),
                SCANU_START_REQUEST,
                SCANU_TASK_ID,
                DRIVER_TASK_ID,
                d80_full_scan_parameters(interface_index),
                SCANU_START_ADDITIONAL_CONFIRM,
                old(self).transmit_capacity(),
                old(self).response_timeout(),
                appended(old(self).io_log(), self.io_log()),
                old(self).received(),
                self.received(),
                outcome,
            ));
        }
        result
    }

    /// The next scan event: the next frame of the aggregate last received, or else of
    /// the next transfer the firmware has pending, waiting a millisecond at a time up to
    /// the response timeout.
    #[verifier::rlimit(80)]
    pub fn next_event(&mut self) -> (result: Result<
        ScanEvent<'_>,
        AicScanError<<I as AicCommandIo>::Error>,
    >)
        requires
            old(self).well_formed(),
        ensures
            final(self).well_formed(),
            final(self).product() == old(self).product(),
            final(self).parameter_capacity() == old(self).parameter_capacity(),
            final(self).response_timeout() == old(self).response_timeout(),
            final(self).transmit_capacity() == old(self).transmit_capacity(),
            log_extends(old(self).io_log(), final(self).io_log()),
            old(self).aggregate_offset() < old(self).aggregate_length() ==> (scan_aggregate_frame(
                old(self).received(),
                old(self).aggregate_length(),
                old(self).aggregate_offset(),
            ) matches Ok(Some((start, end, next))) ==> final(self).aggregate_offset() == next
                && final(self).received() == old(self).received() && final(self).io_log() == old(
                self,
            ).io_log() && match result {
                Ok(event) => event_framed::<<I as AicCommandIo>::Error>(
                    old(self).received(),
                    start as int,
                    end as int,
                    event@,
                ),
                Err(AicScanError::Protocol(error)) => spec_parse_config_response(
                    old(self).received().subrange(start as int, end as int),
                ) == Err::<ConfigResponseView, ProtocolError>(error),
                Err(error) => spec_parse_config_response(
                    old(self).received().subrange(start as int, end as int),
                ) matches Ok(response) && spec_decode_scan_event::<<I as AicCommandIo>::Error>(
                    response,
                ) == Err::<ScanEventView, AicScanError<<I as AicCommandIo>::Error>>(error),
            }),
            old(self).aggregate_offset() < old(self).aggregate_length() ==> (scan_aggregate_frame(
                old(self).received(),
                old(self).aggregate_length(),
                old(self).aggregate_offset(),
            ) matches Err(error) ==> result == Err::<
                ScanEvent<'_>,
                AicScanError<<I as AicCommandIo>::Error>,
            >(AicScanError::Decode(error))),
            result matches Ok(event) ==> exists|start: int, end: int|
                event_framed::<<I as AicCommandIo>::Error>(final(self).received(), start, end, event@),
            result matches Err(AicScanError::Receive(AicResponseError::Timeout { milliseconds }))
                ==> milliseconds == old(self).response_timeout(),
            scan_wait(
                old(self).product(),
                old(self).response_timeout(),
                0,
                appended(old(self).io_log(), final(self).io_log()),
                old(self).received(),
                old(self).aggregate_length(),
                old(self).aggregate_offset(),
                final(self).received(),
                final(self).aggregate_length(),
                final(self).aggregate_offset(),
                scan_result_view(result),
            ),
    {
        let timeout = self.response_timeout_ms;
        let mut elapsed: u32 = 0;
        let ghost mut started = false;
        let ghost log_start = self.io.bus_log();
        let ghost original = self.receive_storage@;
        let ghost original_length = self.aggregate_length as nat;
        let ghost original_offset = self.aggregate_offset as nat;
        proof {
            assert forall|
                rest: Seq<BusOperation>,
                after: Seq<u8>,
                al: nat,
                ao: nat,
                r: Result<ScanEventView, AicScanError<<I as AicCommandIo>::Error>>,
            |
                #[trigger] scan_wait(
                    self.product,
                    timeout,
                    0,
                    rest,
                    original,
                    original_length,
                    original_offset,
                    after,
                    al,
                    ao,
                    r,
                )
                implies scan_wait(
                    self.product,
                    timeout,
                    0,
                    appended(log_start, self.io.bus_log()) + rest,
                    original,
                    original_length,
                    original_offset,
                    after,
                    al,
                    ao,
                    r,
                ) by {
                assert(appended(log_start, self.io.bus_log()) + rest =~= rest);
            }
        }
        loop
            invariant_except_break
                forall|
                    rest: Seq<BusOperation>,
                    after: Seq<u8>,
                    al: nat,
                    ao: nat,
                    r: Result<ScanEventView, AicScanError<<I as AicCommandIo>::Error>>,
                |
                    #[trigger] scan_wait(
                        self.product,
                        timeout,
                        elapsed as nat,
                        rest,
                        self.receive_storage@,
                        self.aggregate_length as nat,
                        self.aggregate_offset as nat,
                        after,
                        al,
                        ao,
                        r,
                    )
                    ==> scan_wait(
                        self.product,
                        timeout,
                        0,
                        appended(log_start, self.io.bus_log()) + rest,
                        original,
                        original_length,
                        original_offset,
                        after,
                        al,
                        ao,
                        r,
                    ),
            invariant
                log_start == old(self).io.bus_log(),
                original == old(self).receive_storage@,
                original_length == old(self).aggregate_length,
                original_offset == old(self).aggregate_offset,
                self.well_formed(),
                self.product() == old(self).product(),
                self.parameter_capacity() == old(self).parameter_capacity(),
                self.response_timeout() == old(self).response_timeout(),
                self.transmit_capacity() == old(self).transmit_capacity(),
                timeout == old(self).response_timeout(),
                elapsed <= timeout,
                log_extends(old(self).io_log(), self.io_log()),
                !started ==> self.received() == old(self).received() && self.io_log() == old(
                    self,
                ).io_log() && self.aggregate_length() == old(self).aggregate_length()
                    && self.aggregate_offset() == old(self).aggregate_offset(),
                elapsed > 0 ==> started,
                started ==> (old(self).aggregate_offset() < old(self).aggregate_length()
                    ==> scan_aggregate_frame(
                    old(self).received(),
                    old(self).aggregate_length(),
                    old(self).aggregate_offset(),
                ) == Ok::<Option<(nat, nat, usize)>, ScanDecodeError>(None)),
            ensures
                started,
                scan_wait(
                    self.product,
                    timeout,
                    0,
                    appended(log_start, self.io.bus_log()),
                    original,
                    original_length,
                    original_offset,
                    self.receive_storage@,
                    self.aggregate_length as nat,
                    self.aggregate_offset as nat,
                    scan_timeout::<<I as AicCommandIo>::Error>(timeout),
                ),
                self.well_formed(),
                self.product() == old(self).product(),
                self.parameter_capacity() == old(self).parameter_capacity(),
                self.response_timeout() == old(self).response_timeout(),
                self.transmit_capacity() == old(self).transmit_capacity(),
                timeout == old(self).response_timeout(),
                elapsed <= timeout,
                log_extends(old(self).io_log(), self.io_log()),
                !started ==> self.received() == old(self).received() && self.io_log() == old(
                    self,
                ).io_log() && self.aggregate_length() == old(self).aggregate_length()
                    && self.aggregate_offset() == old(self).aggregate_offset(),
                elapsed > 0 ==> started,
                started ==> (old(self).aggregate_offset() < old(self).aggregate_length()
                    ==> scan_aggregate_frame(
                    old(self).received(),
                    old(self).aggregate_length(),
                    old(self).aggregate_offset(),
                ) == Ok::<Option<(nat, nat, usize)>, ScanDecodeError>(None)),
            decreases timeout - elapsed,
        {
            let ghost round_received = self.receive_storage@;
            let ghost round_length = self.aggregate_length as nat;
            let ghost round_offset = self.aggregate_offset as nat;
            let ghost round_log = self.io.bus_log();
            if self.aggregate_offset < self.aggregate_length {
                let bounds = next_aggregate_frame_bounds(
                    self.receive_storage,
                    self.aggregate_length,
                    self.aggregate_offset,
                );
                match bounds {
                    Err(error) => {
                        proof {
                            assert(scan_wait(
                                self.product,
                                timeout,
                                elapsed as nat,
                                Seq::<BusOperation>::empty(),
                                round_received,
                                round_length,
                                round_offset,
                                round_received,
                                round_length,
                                round_offset,
                                Err::<ScanEventView, AicScanError<<I as AicCommandIo>::Error>>(AicScanError::Decode(error)),
                            ));
                            assert(appended(log_start, self.io.bus_log()) + Seq::<BusOperation>::empty() =~= appended(log_start, self.io.bus_log()));
                        }
                        return Err(AicScanError::Decode(error));
                    },
                    Ok(None) => {
                        self.aggregate_offset = self.aggregate_length;
                        proof {
                            if elapsed >= timeout {
                                assert(scan_wait(
                                    self.product,
                                    timeout,
                                    elapsed as nat,
                                    Seq::<BusOperation>::empty(),
                                    round_received,
                                    round_length,
                                    round_offset,
                                    round_received,
                                    round_length,
                                    round_length,
                                    scan_timeout::<<I as AicCommandIo>::Error>(timeout),
                                ));
                                assert(appended(log_start, self.io.bus_log()) + Seq::<BusOperation>::empty() =~= appended(log_start, self.io.bus_log()));
                            } else {
                                assert forall|
                                    rest: Seq<BusOperation>,
                                    after: Seq<u8>,
                                    al: nat,
                                    ao: nat,
                                    r: Result<ScanEventView, AicScanError<<I as AicCommandIo>::Error>>,
                                |
                                    #[trigger] scan_wait(
                                        self.product,
                                        timeout,
                                        (elapsed + 1) as nat,
                                        rest,
                                        round_received,
                                        round_length,
                                        round_length,
                                        after,
                                        al,
                                        ao,
                                        r,
                                    )
                                    implies scan_wait(
                                        self.product,
                                        timeout,
                                        0,
                                        appended(log_start, self.io.bus_log()) + rest,
                                        original,
                                        original_length,
                                        original_offset,
                                        after,
                                        al,
                                        ao,
                                        r,
                                    ) by {
                                    assert(scan_wait(
                                        self.product,
                                        timeout,
                                        elapsed as nat,
                                        rest,
                                        round_received,
                                        round_length,
                                        round_offset,
                                        after,
                                        al,
                                        ao,
                                        r,
                                    ));
                                }
                            }
                        }
                    },
                    Ok(Some((start, end, next_offset))) => {
                        self.aggregate_offset = next_offset;
                        let storage: &[u8] = self.receive_storage;
                        let response = match ConfigResponse::parse(&storage[start..end]) {
                            Ok(response) => response,
                            Err(error) => {
                                proof {
                                    assert(storage@ == self.receive_storage@);
                                    assert(scan_wait(
                                        self.product,
                                        timeout,
                                        elapsed as nat,
                                        Seq::<BusOperation>::empty(),
                                        round_received,
                                        round_length,
                                        round_offset,
                                        round_received,
                                        round_length,
                                        next_offset as nat,
                                        Err::<ScanEventView, AicScanError<<I as AicCommandIo>::Error>>(AicScanError::Protocol(error)),
                                    ));
                                    assert(appended(log_start, self.io.bus_log()) + Seq::<BusOperation>::empty() =~= appended(log_start, self.io.bus_log()));
                                }
                                return Err(AicScanError::Protocol(error));
                            },
                        };
                        let event = decode_scan_event(response);
                        proof {
                            if event is Ok {
                                assert(storage@ == self.received());
                                assert(event_framed::<<I as AicCommandIo>::Error>(
                                    self.received(),
                                    start as int,
                                    end as int,
                                    event->Ok_0@,
                                ));
                            }
                        }
                        proof {
                            assert(scan_wait(
                                self.product,
                                timeout,
                                elapsed as nat,
                                Seq::<BusOperation>::empty(),
                                round_received,
                                round_length,
                                round_offset,
                                round_received,
                                round_length,
                                next_offset as nat,
                                scan_result_view(event),
                            ));
                            assert(appended(log_start, self.io.bus_log()) + Seq::<BusOperation>::empty() =~= appended(log_start, self.io.bus_log()));
                        }
                        return event;
                    },
                }
            } else {
                let polled = receive_pending_frame(self.io, self.product, self.receive_storage);
                let ghost round = appended(round_log, self.io.bus_log());
                let ghost middle = self.receive_storage@;
                proof {
                    assert(appended(log_start, self.io.bus_log()) =~= appended(log_start, round_log) + round);
                }
                match polled {
                    Err(error) => {
                        proof {
                            lemma_scan_last_poll(
                                self.product,
                                timeout,
                                elapsed as nat,
                                round,
                                round_received,
                                round_length,
                                round_offset,
                                middle,
                                polled,
                                round_length,
                                round_offset,
                                Err::<ScanEventView, AicScanError<<I as AicCommandIo>::Error>>(AicScanError::Receive(error)),
                            );
                        }
                        return Err(AicScanError::Receive(error));
                    },
                    Ok(Some(length)) => {
                        self.aggregate_length = length;
                        self.aggregate_offset = 0;
                        proof {
                            if elapsed >= timeout {
                                lemma_scan_last_poll(
                                    self.product,
                                    timeout,
                                    elapsed as nat,
                                    round,
                                    round_received,
                                    round_length,
                                    round_offset,
                                    middle,
                                    polled,
                                    length as nat,
                                    0,
                                    scan_timeout::<<I as AicCommandIo>::Error>(timeout),
                                );
                            } else {
                                assert forall|
                                    rest: Seq<BusOperation>,
                                    after: Seq<u8>,
                                    al: nat,
                                    ao: nat,
                                    r: Result<ScanEventView, AicScanError<<I as AicCommandIo>::Error>>,
                                |
                                    #[trigger] scan_wait(
                                        self.product,
                                        timeout,
                                        (elapsed + 1) as nat,
                                        rest,
                                        middle,
                                        length as nat,
                                        0,
                                        after,
                                        al,
                                        ao,
                                        r,
                                    )
                                    implies scan_wait(
                                        self.product,
                                        timeout,
                                        0,
                                        appended(log_start, self.io.bus_log()) + rest,
                                        original,
                                        original_length,
                                        original_offset,
                                        after,
                                        al,
                                        ao,
                                        r,
                                    ) by {
                                    lemma_scan_received_round(
                                        self.product,
                                        timeout,
                                        elapsed as nat,
                                        round,
                                        round_received,
                                        round_length,
                                        round_offset,
                                        middle,
                                        length,
                                        rest,
                                        after,
                                        al,
                                        ao,
                                        r,
                                    );
                                    assert(appended(log_start, round_log) + (round + rest) =~= appended(log_start, self.io.bus_log()) + rest);
                                }
                            }
                        }
                    },
                    Ok(None) => {
                        if elapsed < timeout {
                            AicResponseIo::delay_ms(self.io, 1);
                            proof {
                                let delay = seq![BusOperation::DelayMs { milliseconds: 1 }];
                                assert(appended(log_start, self.io.bus_log()) =~= appended(log_start, round_log) + round + delay);
                                assert forall|
                                    rest: Seq<BusOperation>,
                                    after: Seq<u8>,
                                    al: nat,
                                    ao: nat,
                                    r: Result<ScanEventView, AicScanError<<I as AicCommandIo>::Error>>,
                                |
                                    #[trigger] scan_wait(
                                        self.product,
                                        timeout,
                                        (elapsed + 1) as nat,
                                        rest,
                                        middle,
                                        round_length,
                                        round_offset,
                                        after,
                                        al,
                                        ao,
                                        r,
                                    )
                                    implies scan_wait(
                                        self.product,
                                        timeout,
                                        0,
                                        appended(log_start, self.io.bus_log()) + rest,
                                        original,
                                        original_length,
                                        original_offset,
                                        after,
                                        al,
                                        ao,
                                        r,
                                    ) by {
                                    lemma_scan_idle_round(
                                        self.product,
                                        timeout,
                                        elapsed as nat,
                                        round,
                                        round_received,
                                        round_length,
                                        round_offset,
                                        rest,
                                        after,
                                        al,
                                        ao,
                                        r,
                                    );
                                    assert(appended(log_start, round_log) + (round + delay + rest) =~= appended(log_start, self.io.bus_log()) + rest);
                                }
                            }
                        } else {
                            proof {
                                lemma_scan_last_poll(
                                    self.product,
                                    timeout,
                                    elapsed as nat,
                                    round,
                                    round_received,
                                    round_length,
                                    round_offset,
                                    middle,
                                    polled,
                                    round_length,
                                    round_offset,
                                    scan_timeout::<<I as AicCommandIo>::Error>(timeout),
                                );
                            }
                        }
                    },
                }
            }
            proof {
                started = true;
            }
            assert(elapsed < timeout ==> forall|
                rest: Seq<BusOperation>,
                after: Seq<u8>,
                al: nat,
                ao: nat,
                r: Result<ScanEventView, AicScanError<<I as AicCommandIo>::Error>>,
            |
                    #[trigger] scan_wait(
                        self.product,
                        timeout,
                        (elapsed + 1) as nat,
                        rest,
                        self.receive_storage@,
                        self.aggregate_length as nat,
                        self.aggregate_offset as nat,
                        after,
                        al,
                        ao,
                        r,
                    )
                    ==> scan_wait(
                        self.product,
                        timeout,
                        0,
                        appended(log_start, self.io.bus_log()) + rest,
                        original,
                        original_length,
                        original_offset,
                        after,
                        al,
                        ao,
                        r,
                    ));
            if elapsed >= timeout {
                break ;
            }
            let ghost prior = elapsed;
            elapsed = elapsed + 1;
            proof {
                assert forall|
                    rest: Seq<BusOperation>,
                    after: Seq<u8>,
                    al: nat,
                    ao: nat,
                    r: Result<ScanEventView, AicScanError<<I as AicCommandIo>::Error>>,
                |
                    #[trigger] scan_wait(
                        self.product,
                        timeout,
                        elapsed as nat,
                        rest,
                        self.receive_storage@,
                        self.aggregate_length as nat,
                        self.aggregate_offset as nat,
                        after,
                        al,
                        ao,
                        r,
                    )
                    implies scan_wait(
                        self.product,
                        timeout,
                        0,
                        appended(log_start, self.io.bus_log()) + rest,
                        original,
                        original_length,
                        original_offset,
                        after,
                        al,
                        ao,
                        r,
                    ) by {
                    assert(elapsed as nat == (prior + 1) as nat);
                }
            }
        }
        Err(AicScanError::Receive(AicResponseError::Timeout { milliseconds: timeout }))
    }
}

} // verus!
