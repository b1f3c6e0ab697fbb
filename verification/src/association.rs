//! Association: the WPA2-Personal connect request to the station management task, the
//! connect confirmation and indication, Ethernet frames to send once connected, and the
//! events received meanwhile.
use vstd::prelude::*;

use crate::bytes::{
    array6_at, copy_prefix, le16, le16_at, le32, le32_at, push_le16, push_le32, push_slice,
    push_zeros, read_be16, read_le16, read_le32, usize_from_u16, zeros,
};
use crate::data::{
    DataDecodeError, ReceivedEthernetFrame, ReceivedEthernetFrameView,
    SDIO_CONFIG_COMMAND_RESPONSE_TYPE, SDIO_CONFIG_TYPE_MASK, decode_sdio_data_packet,
    spec_decode_sdio_data_packet,
};
use crate::device::{Aic8800Product, spec_command_header_mode};
use crate::firmware::DRIVER_TASK_ID;
use crate::protocol::{
    ConfigResponse, ConfigResponseView, ProtocolError, build_command_frame,
    finalize_command_transfer, spec_parse_config_response,
};
use crate::response::{
    AicResponseError, AicResponseIo, next_aggregate_frame_bounds, receive_outcome,
    receive_pending_frame, spec_aggregate_frame,
};
use crate::sdio::{
    AicCommandError, AicCommandIo, BusOperation, appended, command_fifo_write, log_extends,
    send_command_transfer, send_outcome,
};
use crate::transaction::{sent_command, spec_command_framing_error, spec_command_transfer};
use crate::tx::{
    DataSendError, DataTransferLengths, DataTransmitError, EthernetTransmitParameters,
    build_d80_ethernet_data_transfer, data_send_outcome, send_d80_data_transfer,
};

verus! {

/// Task identifier of the station management task.
pub const SM_TASK_ID: u16 = 6;

pub const SM_CONNECT_REQUEST: u16 = 0x1800;

pub const SM_CONNECT_CONFIRM: u16 = 0x1801;

pub const SM_CONNECT_INDICATION: u16 = 0x1802;

/// Connect flag: the host handles the control port.
pub const CONTROL_PORT_HOST: u32 = 1;

/// Connect flag: WPA or WPA2 is in use.
pub const WPA_WPA2_IN_USE: u32 = 8;

/// The Ethernet type of the control port protocol, EAPOL, in network order.
pub const CONTROL_PORT_PROTOCOL_EAPOL: [u8; 2] = [0x88, 0x8e];

/// What to connect to.
#[derive(Clone, Copy, Debug, Eq, PartialEq)]
pub struct ConnectParameters<'a> {
    pub ssid: &'a [u8],
    pub bssid: [u8; 6],
    pub frequency_mhz: u16,
    pub band: u8,
    pub channel_flags: u8,
    pub transmit_power_dbm: i8,
    pub association_information_elements: &'a [u8],
    pub interface_index: u8,
}

#[derive(Clone, Copy, Debug, Eq, PartialEq, Structural)]
pub enum ConnectEncodeError {
    OutputTooShort { required: usize, available: usize },
    SsidTooLong { maximum: usize, actual: usize },
    InformationElementsTooLong { maximum: usize, actual: usize },
}

#[derive(Clone, Copy, Debug, Eq, PartialEq, Structural)]
pub enum ConnectDecodeError {
    TruncatedConfirmation { required: usize, available: usize },
    TruncatedIndication { required: usize, available: usize },
    InformationElementsTooLong { maximum: usize, actual: usize },
    TruncatedAggregateFrame { required: usize, available: usize },
}

#[derive(Clone, Copy, Debug, Eq, PartialEq, Structural)]
pub struct ConnectConfirmation {
    pub status: u8,
}

/// The connect indication; the association elements borrow from the parameter.
#[derive(Clone, Copy, Debug, Eq, PartialEq)]
pub struct ConnectIndication<'a> {
    pub status_code: u16,
    pub bssid: [u8; 6],
    pub roamed: bool,
    pub interface_index: u8,
    pub access_point_index: u8,
    pub channel_index: u8,
    pub qos: bool,
    pub admission_control_mask: u8,
    pub association_request_information_elements: &'a [u8],
    pub association_response_information_elements: &'a [u8],
    pub association_id: u16,
    pub band: u8,
    pub center_frequency_mhz: u16,
    pub width: u8,
    pub center_frequency1_mhz: u32,
    pub center_frequency2_mhz: u32,
    pub access_category_parameters: [u32; 4],
}

/// A connect indication as plain values.
pub struct ConnectIndicationView {
    pub status_code: u16,
    pub bssid: Seq<u8>,
    pub roamed: bool,
    pub interface_index: u8,
    pub access_point_index: u8,
    pub channel_index: u8,
    pub qos: bool,
    pub admission_control_mask: u8,
    pub association_request_information_elements: Seq<u8>,
    pub association_response_information_elements: Seq<u8>,
    pub association_id: u16,
    pub band: u8,
    pub center_frequency_mhz: u16,
    pub width: u8,
    pub center_frequency1_mhz: u32,
    pub center_frequency2_mhz: u32,
    pub access_category_parameters: Seq<u32>,
}

impl<'a> View for ConnectIndication<'a> {
    type V = ConnectIndicationView;

    open spec fn view(&self) -> ConnectIndicationView {
        ConnectIndicationView {
            status_code: self.status_code,
            bssid: self.bssid@,
            roamed: self.roamed,
            interface_index: self.interface_index,
            access_point_index: self.access_point_index,
            channel_index: self.channel_index,
            qos: self.qos,
            admission_control_mask: self.admission_control_mask,
            association_request_information_elements: self.association_request_information_elements@,
            association_response_information_elements: self.association_response_information_elements@,
            association_id: self.association_id,
            band: self.band,
            center_frequency_mhz: self.center_frequency_mhz,
            width: self.width,
            center_frequency1_mhz: self.center_frequency1_mhz,
            center_frequency2_mhz: self.center_frequency2_mhz,
            access_category_parameters: self.access_category_parameters@,
        }
    }
}

/// What is received while associating.
#[derive(Clone, Copy, Debug, Eq, PartialEq)]
pub enum AssociationEvent<'a> {
    Confirmation(ConnectConfirmation),
    Indication(ConnectIndication<'a>),
    Data(ReceivedEthernetFrame<'a>),
    UndecodedData { packet: &'a [u8], error: DataDecodeError },
    Transport { message_type: u8 },
    Unrelated { message_id: u16 },
}

/// An association event as plain values.
pub enum AssociationEventView {
    Confirmation(ConnectConfirmation),
    Indication(ConnectIndicationView),
    Data(ReceivedEthernetFrameView),
    UndecodedData { packet: Seq<u8>, error: DataDecodeError },
    Transport { message_type: u8 },
    Unrelated { message_id: u16 },
}

impl<'a> View for AssociationEvent<'a> {
    type V = AssociationEventView;

    open spec fn view(&self) -> AssociationEventView {
        match self {
            AssociationEvent::Confirmation(confirmation) => AssociationEventView::Confirmation(
                *confirmation,
            ),
            AssociationEvent::Indication(indication) => AssociationEventView::Indication(
                indication@,
            ),
            AssociationEvent::Data(frame) => AssociationEventView::Data(frame@),
            AssociationEvent::UndecodedData { packet, error } => AssociationEventView::UndecodedData {
                packet: packet@,
                error: *error,
            },
            AssociationEvent::Transport { message_type } => AssociationEventView::Transport {
                message_type: *message_type,
            },
            AssociationEvent::Unrelated { message_id } => AssociationEventView::Unrelated {
                message_id: *message_id,
            },
        }
    }
}

#[derive(Clone, Copy, Debug, Eq, PartialEq)]
pub enum AicAssociationError<E> {
    Encode(ConnectEncodeError),
    Decode(ConnectDecodeError),
    Protocol(ProtocolError),
    Send(AicCommandError<E>),
    Receive(AicResponseError<E>),
    UnexpectedMessageId { actual: u16 },
}

/// The send result that a connect request's `result` carries: the send error, or else
/// success.
pub open spec fn connect_send_result<E>(result: Result<(), AicAssociationError<E>>) -> Result<
    (),
    AicCommandError<E>,
> {
    match result {
        Err(AicAssociationError::Send(error)) => Err(error),
        _ => Ok(()),
    }
}

#[derive(Clone, Copy, Debug, Eq, PartialEq)]
pub enum EthernetSendError<E> {
    TruncatedFrame { required: usize, available: usize },
    Encode(DataTransmitError),
    Send(DataSendError<E>),
}

/// The send result that an Ethernet send's `result` carries: the send error, or else
/// success.
pub open spec fn ethernet_send_result<E>(result: Result<DataTransferLengths, EthernetSendError<E>>) -> Result<
    (),
    DataSendError<E>,
> {
    match result {
        Err(EthernetSendError::Send(error)) => Err(error),
        _ => Ok(()),
    }
}

// ---------------------------------------------------------------------------
// The connect request.
// ---------------------------------------------------------------------------

/// Why connect parameters cannot be encoded into `available` bytes, if they cannot: the
/// request has 320 bytes, an SSID at most 32 and the association elements at most 256.
pub open spec fn connect_encode_error(available: usize, ssid_length: usize, elements_length: usize) -> Option<
    ConnectEncodeError,
> {
    if available < 320 {
        Some(ConnectEncodeError::OutputTooShort { required: 320, available })
    } else if ssid_length > 32 {
        Some(ConnectEncodeError::SsidTooLong { maximum: 32, actual: ssid_length })
    } else if elements_length > 256 {
        Some(ConnectEncodeError::InformationElementsTooLong { maximum: 256, actual: elements_length })
    } else {
        None
    }
}

/// The 320-byte WPA2-Personal connect request: the SSID, the BSSID, the channel, the
/// control port flags and protocol (EAPOL), the association elements' length, the
/// interface, then the association elements.
pub open spec fn connect_parameters(parameters: ConnectParameters) -> Seq<u8> {
    let ssid = parameters.ssid@;
    let elements = parameters.association_information_elements@;
    seq![ssid.len() as u8] + ssid + zeros((33 - ssid.len()) as nat) + parameters.bssid@ + le16(
        parameters.frequency_mhz,
    ) + seq![parameters.band, parameters.channel_flags, parameters.transmit_power_dbm as u8]
        + zeros(3) + le32(CONTROL_PORT_HOST | WPA_WPA2_IN_USE) + seq![0x88u8, 0x8eu8] + le16(
        elements.len() as u16,
    ) + zeros(4) + seq![1u8, parameters.interface_index] + zeros(2) + elements + zeros(
        (256 - elements.len()) as nat,
    )
}

/// Writes the WPA2-Personal connect request at the front of `output`.
pub fn encode_wpa2_personal_connect_parameters(
    output: &mut [u8],
    parameters: ConnectParameters<'_>,
) -> (result:
    Result<usize, ConnectEncodeError>)
    ensures
        match result {
            Ok(length) => connect_encode_error(
                old(output).len(),
                parameters.ssid.len(),
                parameters.association_information_elements.len(),
            ) is None && length == 320 && final(output)@ == connect_parameters(parameters) + old(
                output,
            )@.skip(320),
            Err(error) => connect_encode_error(
                old(output).len(),
                parameters.ssid.len(),
                parameters.association_information_elements.len(),
            ) == Some(error) && final(output)@ == old(output)@,
        },
{
    if output.len() < 320 {
        return Err(ConnectEncodeError::OutputTooShort { required: 320, available: output.len() });
    }
    let ssid = parameters.ssid;
    let elements = parameters.association_information_elements;
    if ssid.len() > 32 {
        return Err(ConnectEncodeError::SsidTooLong { maximum: 32, actual: ssid.len() });
    }
    if elements.len() > 256 {
        return Err(ConnectEncodeError::InformationElementsTooLong { maximum: 256, actual: elements.len() });
    }
    let mut request: Vec<u8> = Vec::new();
    request.push(ssid.len() as u8);
    push_slice(&mut request, ssid);
    push_zeros(&mut request, 33 - ssid.len());
    push_slice(&mut request, &parameters.bssid);
    push_le16(&mut request, parameters.frequency_mhz);
    request.push(parameters.band);
    request.push(parameters.channel_flags);
    request.push(parameters.transmit_power_dbm as u8);
    push_zeros(&mut request, 3);
    push_le32(&mut request, CONTROL_PORT_HOST | WPA_WPA2_IN_USE);
    request.push(0x88);
    request.push(0x8e);
    push_le16(&mut request, elements.len() as u16);
    push_zeros(&mut request, 4);
    request.push(1);
    request.push(parameters.interface_index);
    push_zeros(&mut request, 2);
    push_slice(&mut request, elements);
    push_zeros(&mut request, 256 - elements.len());
    assert(request@ =~= connect_parameters(parameters));
    copy_prefix(output, request.as_slice());
    Ok(320)
}

// ---------------------------------------------------------------------------
// Confirmation and indication.
// ---------------------------------------------------------------------------

/// The connect confirmation: its status byte.
pub open spec fn spec_decode_connect_confirmation(parameter: Seq<u8>) -> Result<
    ConnectConfirmation,
    ConnectDecodeError,
> {
    if parameter.len() == 0 {
        Err(ConnectDecodeError::TruncatedConfirmation { required: 1, available: 0 })
    } else {
        Ok(ConnectConfirmation { status: parameter[0] })
    }
}

/// Reads a connect confirmation.
pub fn decode_connect_confirmation(parameter: &[u8]) -> (result: Result<
    ConnectConfirmation,
    ConnectDecodeError,
>)
    ensures
        result == spec_decode_connect_confirmation(parameter@),
{
    if parameter.len() == 0 {
        return Err(ConnectDecodeError::TruncatedConfirmation { required: 1, available: parameter.len() });
    }
    Ok(ConnectConfirmation { status: parameter[0] })
}

/// The connect indication: 852 bytes with the association request and response elements
/// (800 bytes at most together) from byte 20, then the association identifier, the
/// channel and the access category parameters.
pub open spec fn spec_decode_connect_indication(parameter: Seq<u8>) -> Result<
    ConnectIndicationView,
    ConnectDecodeError,
> {
    let request_length = le16_at(parameter, 14);
    let response_length = le16_at(parameter, 16);
    if parameter.len() < 852 {
        Err(
            ConnectDecodeError::TruncatedIndication {
                required: 852,
                available: parameter.len() as usize,
            },
        )
    } else if request_length + response_length > 800 {
        Err(
            ConnectDecodeError::InformationElementsTooLong {
                maximum: 800,
                actual: (request_length + response_length) as usize,
            },
        )
    } else {
        Ok(
            ConnectIndicationView {
                status_code: le16_at(parameter, 0),
                bssid: parameter.subrange(2, 8),
                roamed: parameter[8] != 0,
                interface_index: parameter[9],
                access_point_index: parameter[10],
                channel_index: parameter[11],
                qos: parameter[12] != 0,
                admission_control_mask: parameter[13],
                association_request_information_elements: parameter.subrange(
                    20,
                    20 + request_length,
                ),
                association_response_information_elements: parameter.subrange(
                    20 + request_length,
                    20 + request_length + response_length,
                ),
                association_id: le16_at(parameter, 820),
                band: parameter[822],
                center_frequency_mhz: le16_at(parameter, 824),
                width: parameter[826],
                center_frequency1_mhz: le32_at(parameter, 828),
                center_frequency2_mhz: le32_at(parameter, 832),
                access_category_parameters: seq![
                    le32_at(parameter, 836),
                    le32_at(parameter, 840),
                    le32_at(parameter, 844),
                    le32_at(parameter, 848),
                ],
            },
        )
    }
}

/// Reads a connect indication; the association elements borrow from `parameter`.
pub fn decode_connect_indication(parameter: &[u8]) -> (result: Result<
    ConnectIndication<'_>,
    ConnectDecodeError,
>)
    ensures
        match result {
            Ok(indication) => spec_decode_connect_indication(parameter@) == Ok::<
                ConnectIndicationView,
                ConnectDecodeError,
            >(indication@),
            Err(error) => spec_decode_connect_indication(parameter@) == Err::<
                ConnectIndicationView,
                ConnectDecodeError,
            >(error),
        },
{
    if parameter.len() < 852 {
        return Err(ConnectDecodeError::TruncatedIndication { required: 852, available: parameter.len() });
    }
    let request_length = usize_from_u16(read_le16(parameter, 14));
    let response_length = usize_from_u16(read_le16(parameter, 16));
    let elements_length = request_length + response_length;
    if elements_length > 800 {
        return Err(
            ConnectDecodeError::InformationElementsTooLong { maximum: 800, actual: elements_length },
        );
    }
    let request_start: usize = 20;
    let response_start = request_start + request_length;
    let response_end = response_start + response_length;
    let access_category_parameters = [
        read_le32(parameter, 836),
        read_le32(parameter, 840),
        read_le32(parameter, 844),
        read_le32(parameter, 848),
    ];
    let indication = ConnectIndication {
        status_code: read_le16(parameter, 0),
        bssid: array6_at(parameter, 2),
        roamed: parameter[8] != 0,
        interface_index: parameter[9],
        access_point_index: parameter[10],
        channel_index: parameter[11],
        qos: parameter[12] != 0,
        admission_control_mask: parameter[13],
        association_request_information_elements: &parameter[request_start..response_start],
        association_response_information_elements: &parameter[response_start..response_end],
        association_id: read_le16(parameter, 820),
        band: parameter[822],
        center_frequency_mhz: read_le16(parameter, 824),
        width: parameter[826],
        center_frequency1_mhz: read_le32(parameter, 828),
        center_frequency2_mhz: read_le32(parameter, 832),
        access_category_parameters,
    };
    assert(indication@.access_category_parameters =~= seq![
        le32_at(parameter@, 836),
        le32_at(parameter@, 840),
        le32_at(parameter@, 844),
        le32_at(parameter@, 848),
    ]);
    Ok(indication)
}

/// The event a configuration response carries.
pub open spec fn spec_decode_association_event<E>(response: ConfigResponseView) -> Result<
    AssociationEventView,
    AicAssociationError<E>,
> {
    if response.id == SM_CONNECT_CONFIRM {
        match spec_decode_connect_confirmation(response.parameter) {
            Ok(confirmation) => Ok(AssociationEventView::Confirmation(confirmation)),
            Err(error) => Err(AicAssociationError::Decode(error)),
        }
    } else if response.id == SM_CONNECT_INDICATION {
        match spec_decode_connect_indication(response.parameter) {
            Ok(indication) => Ok(AssociationEventView::Indication(indication)),
            Err(error) => Err(AicAssociationError::Decode(error)),
        }
    } else {
        Ok(AssociationEventView::Unrelated { message_id: response.id })
    }
}

fn decode_association_event<'a, E>(response: ConfigResponse<'a>) -> (result: Result<
    AssociationEvent<'a>,
    AicAssociationError<E>,
>)
    ensures
        match result {
            Ok(event) => spec_decode_association_event::<E>(response@) == Ok::<
                AssociationEventView,
                AicAssociationError<E>,
            >(event@),
            Err(error) => spec_decode_association_event::<E>(response@) == Err::<
                AssociationEventView,
                AicAssociationError<E>,
            >(error),
        },
{
    if response.id == SM_CONNECT_CONFIRM {
        match decode_connect_confirmation(response.parameter) {
            Ok(confirmation) => Ok(AssociationEvent::Confirmation(confirmation)),
            Err(error) => Err(AicAssociationError::Decode(error)),
        }
    } else if response.id == SM_CONNECT_INDICATION {
        match decode_connect_indication(response.parameter) {
            Ok(indication) => Ok(AssociationEvent::Indication(indication)),
            Err(error) => Err(AicAssociationError::Decode(error)),
        }
    } else {
        Ok(AssociationEvent::Unrelated { message_id: response.id })
    }
}

/// The event that the aggregate frame `received[start..end]` of message type
/// `message_type` carries: a data frame (decoded or not), a transport message other than
/// a configuration response, or the event of a configuration response.
pub open spec fn spec_frame_event<E>(received: Seq<u8>, start: int, end: int, message_type: u8) -> Result<
    AssociationEventView,
    AicAssociationError<E>,
> {
    let packet = received.subrange(start, end);
    if message_type & SDIO_CONFIG_TYPE_MASK != SDIO_CONFIG_TYPE_MASK {
        match spec_decode_sdio_data_packet(packet) {
            Ok(frame) => Ok(AssociationEventView::Data(frame)),
            Err(error) => Ok(AssociationEventView::UndecodedData { packet, error }),
        }
    } else if message_type != SDIO_CONFIG_COMMAND_RESPONSE_TYPE {
        Ok(AssociationEventView::Transport { message_type })
    } else {
        match spec_parse_config_response(packet) {
            Err(error) => Err(AicAssociationError::Protocol(error)),
            Ok(response) => spec_decode_association_event::<E>(response),
        }
    }
}

/// The aggregate error as a connect decoding error.
pub open spec fn aggregate_error(error: ProtocolError) -> ConnectDecodeError {
    match error {
        ProtocolError::TruncatedFrame { required, available } => ConnectDecodeError::TruncatedAggregateFrame {
            required,
            available,
        },
        _ => ConnectDecodeError::TruncatedAggregateFrame { required: 0, available: 0 },
    }
}

// ---------------------------------------------------------------------------
// The association client.
// ---------------------------------------------------------------------------

/// The transfer that sends the Ethernet frame `frame` (header and payload).
pub open spec fn ethernet_transfer(
    frame: Seq<u8>,
    interface_index: u8,
    station_index: u8,
    confirmation_index: u32,
) -> Seq<u8> {
    let payload = frame.skip(14);
    let data = crate::tx::data_frame_of(
        frame.subrange(0, 6),
        frame.subrange(6, 12),
        crate::bytes::be16_at(frame, 12),
        interface_index,
        station_index,
        confirmation_index,
        payload,
    );
    data + zeros((crate::tx::data_transfer_length(32 + payload.len()) - data.len()) as nat)
}

/// An event result read through the view of the event it carries.
pub open spec fn association_result_view<'a, E>(
    result: Result<AssociationEvent<'a>, AicAssociationError<E>>,
) -> Result<AssociationEventView, AicAssociationError<E>> {
    match result {
        Ok(event) => Ok(event@),
        Err(error) => Err(error),
    }
}

/// The timeout a wait for an event ends with.
pub open spec fn association_timeout<E>(timeout: u32) -> Result<AssociationEventView, AicAssociationError<E>> {
    Err(AicAssociationError::Receive(AicResponseError::Timeout { milliseconds: timeout }))
}

/// Whether `operations` are what a wait for the next association event performed, with
/// `elapsed` of `timeout` rounds spent, from receive storage `received` holding an
/// aggregate of `length` bytes handed out up to `offset`, leaving storage `after` with an
/// aggregate of `after_length` bytes handed out up to `after_offset`, and returning
/// `result`. A round with a frame left in the aggregate returns that frame's event (or the
/// aggregate's malformation) at once and moves the offset to the next frame; a round with
/// an exhausted aggregate polls as `receive_pending_frame` does: a received transfer
/// becomes the aggregate from offset 0, a poll that found nothing is followed by a 1 ms
/// wait; once `timeout` rounds have passed without an event the wait times out.
pub open spec fn association_wait<E>(
    product: Aic8800Product,
    timeout: u32,
    elapsed: nat,
    operations: Seq<BusOperation>,
    received: Seq<u8>,
    length: nat,
    offset: nat,
    after: Seq<u8>,
    after_length: nat,
    after_offset: nat,
    result: Result<AssociationEventView, AicAssociationError<E>>,
) -> bool
    decreases timeout - elapsed,
{
    if offset < length {
        match spec_aggregate_frame(received, length, offset) {
            Err(error) => operations.len() == 0 && after == received && after_length == length
                && after_offset == offset && result == Err::<AssociationEventView, AicAssociationError<E>>(
                AicAssociationError::Decode(aggregate_error(error)),
            ),
            Ok(Some((start, end, next, message_type))) => operations.len() == 0 && after == received
                && after_length == length && after_offset == next && result == spec_frame_event::<E>(
                received,
                start as int,
                end as int,
                message_type,
            ),
            Ok(None) => if elapsed >= timeout {
                operations.len() == 0 && after == received && after_length == length && after_offset
                    == length && result == association_timeout::<E>(timeout)
            } else {
                association_wait(
                    product,
                    timeout,
                    elapsed + 1,
                    operations,
                    received,
                    length,
                    length,
                    after,
                    after_length,
                    after_offset,
                    result,
                )
            },
        }
    } else {
        exists|split: int, polled: Result<Option<usize>, AicResponseError<E>>, middle: Seq<u8>|
            #![trigger receive_outcome(product, operations.take(split), received, middle, polled)]
            {
                &&& 0 <= split <= operations.len()
                &&& receive_outcome(product, operations.take(split), received, middle, polled)
                &&& match polled {
                    Err(error) => split == operations.len() && after == middle && after_length == length
                        && after_offset == offset && result == Err::<AssociationEventView, AicAssociationError<E>>(
                        AicAssociationError::Receive(error),
                    ),
                    Ok(Some(n)) => if elapsed >= timeout {
                        split == operations.len() && after == middle && after_length == n
                            && after_offset == 0 && result == association_timeout::<E>(timeout)
                    } else {
                        association_wait(
                            product,
                            timeout,
                            elapsed + 1,
                            operations.skip(split),
                            middle,
                            n as nat,
                            0,
                            after,
                            after_length,
                            after_offset,
                            result,
                        )
                    },
                    Ok(None) => if elapsed >= timeout {
                        split == operations.len() && after == middle && after_length == length
                            && after_offset == offset && result == association_timeout::<E>(timeout)
                    } else {
                        &&& split < operations.len()
                        &&& operations[split] == BusOperation::DelayMs { milliseconds: 1 }
                        &&& association_wait(
                            product,
                            timeout,
                            elapsed + 1,
                            operations.skip(split + 1),
                            middle,
                            length,
                            offset,
                            after,
                            after_length,
                            after_offset,
                            result,
                        )
                    },
                }
            }
    }
}

/// A poll that found nothing pending, then its wait, in front of the rest of a wait.
proof fn lemma_association_idle_round<E>(
    product: Aic8800Product,
    timeout: u32,
    elapsed: nat,
    round: Seq<BusOperation>,
    received: Seq<u8>,
    length: nat,
    offset: nat,
    rest: Seq<BusOperation>,
    after: Seq<u8>,
    after_length: nat,
    after_offset: nat,
    result: Result<AssociationEventView, AicAssociationError<E>>,
)
    requires
        elapsed < timeout,
        offset >= length,
        receive_outcome(product, round, received, received, Ok::<Option<usize>, AicResponseError<E>>(None)),
        association_wait(
            product,
            timeout,
            elapsed + 1,
            rest,
            received,
            length,
            offset,
            after,
            after_length,
            after_offset,
            result,
        ),
    ensures
        association_wait(
            product,
            timeout,
            elapsed,
            round + seq![BusOperation::DelayMs { milliseconds: 1 }] + rest,
            received,
            length,
            offset,
            after,
            after_length,
            after_offset,
            result,
        ),
{
    let operations = round + seq![BusOperation::DelayMs { milliseconds: 1 }] + rest;
    let split = round.len() as int;
    assert(operations.take(split) =~= round);
    assert(operations.skip(split + 1) =~= rest);
    assert(operations[split] == BusOperation::DelayMs { milliseconds: 1 });
    assert(receive_outcome(
        product,
        operations.take(split),
        received,
        received,
        Ok::<Option<usize>, AicResponseError<E>>(None),
    ));
}

/// A poll that received a transfer in front of the rest of a wait, which starts on that
/// transfer as the aggregate.
proof fn lemma_association_received_round<E>(
    product: Aic8800Product,
    timeout: u32,
    elapsed: nat,
    round: Seq<BusOperation>,
    received: Seq<u8>,
    length: nat,
    offset: nat,
    middle: Seq<u8>,
    n: usize,
    rest: Seq<BusOperation>,
    after: Seq<u8>,
    after_length: nat,
    after_offset: nat,
    result: Result<AssociationEventView, AicAssociationError<E>>,
)
    requires
        elapsed < timeout,
        offset >= length,
        receive_outcome(product, round, received, middle, Ok::<Option<usize>, AicResponseError<E>>(Some(n))),
        association_wait(
            product,
            timeout,
            elapsed + 1,
            rest,
            middle,
            n as nat,
            0,
            after,
            after_length,
            after_offset,
            result,
        ),
    ensures
        association_wait(
            product,
            timeout,
            elapsed,
            round + rest,
            received,
            length,
            offset,
            after,
            after_length,
            after_offset,
            result,
        ),
{
    let operations = round + rest;
    let split = round.len() as int;
    assert(operations.take(split) =~= round);
    assert(operations.skip(split) =~= rest);
    assert(receive_outcome(
        product,
        operations.take(split),
        received,
        middle,
        Ok::<Option<usize>, AicResponseError<E>>(Some(n)),
    ));
}

/// A poll that ends the wait.
proof fn lemma_association_last_poll<E>(
    product: Aic8800Product,
    timeout: u32,
    elapsed: nat,
    round: Seq<BusOperation>,
    received: Seq<u8>,
    length: nat,
    offset: nat,
    middle: Seq<u8>,
    polled: Result<Option<usize>, AicResponseError<E>>,
    after_length: nat,
    after_offset: nat,
    result: Result<AssociationEventView, AicAssociationError<E>>,
)
    requires
        offset >= length,
        receive_outcome(product, round, received, middle, polled),
        match polled {
            Err(error) => after_length == length && after_offset == offset && result == Err::<AssociationEventView, AicAssociationError<E>>(
                AicAssociationError::Receive(error),
            ),
            Ok(Some(n)) => elapsed >= timeout && after_length == n && after_offset == 0 && result == association_timeout::<E>(timeout),
            Ok(None) => elapsed >= timeout && after_length == length && after_offset == offset && result == association_timeout::<E>(timeout),
        },
    ensures
        association_wait(
            product,
            timeout,
            elapsed,
            round,
            received,
            length,
            offset,
            middle,
            after_length,
            after_offset,
            result,
        ),
{
    let split = round.len() as int;
    assert(round.take(split) =~= round);
    assert(receive_outcome(product, round.take(split), received, middle, polled));
}

/// A client that associates, over a device handle and the storage the round trips use;
/// it keeps the aggregate last received and how far its frames have been handed out.
pub struct AicAssociationClient<'a, I> {
    io: &'a mut I,
    product: Aic8800Product,
    parameter_storage: &'a mut [u8],
    transmit_storage: &'a mut [u8],
    receive_storage: &'a mut [u8],
    response_timeout_ms: u32,
    aggregate_length: usize,
    aggregate_offset: usize,
}

impl<'a, I> AicAssociationClient<'a, I> where
    I: AicCommandIo + AicResponseIo<Error = <I as AicCommandIo>::Error>,
 {
    /// The bus log of the device handle.
    pub closed spec fn io_log(&self) -> Seq<BusOperation> {
        self.io.bus_log()
    }

    pub closed spec fn product(&self) -> Aic8800Product {
        self.product
    }

    /// The bytes of parameter storage.
    pub closed spec fn parameter_capacity(&self) -> nat {
        self.parameter_storage@.len()
    }

    /// The bytes of transmit storage.
    pub closed spec fn transmit_capacity(&self) -> nat {
        self.transmit_storage@.len()
    }

    /// What receive storage holds.
    pub closed spec fn received(&self) -> Seq<u8> {
        self.receive_storage@
    }

    pub closed spec fn response_timeout(&self) -> u32 {
        self.response_timeout_ms
    }

    /// The length of the aggregate last received.
    pub closed spec fn aggregate_length(&self) -> nat {
        self.aggregate_length as nat
    }

    /// Where the next frame of that aggregate starts.
    pub closed spec fn aggregate_offset(&self) -> nat {
        self.aggregate_offset as nat
    }

    /// The aggregate lies within receive storage.
    pub closed spec fn well_formed(&self) -> bool {
        self.aggregate_length <= self.receive_storage@.len()
    }

    pub fn new(
        io: &'a mut I,
        product: Aic8800Product,
        parameter_storage: &'a mut [u8],
        transmit_storage: &'a mut [u8],
        receive_storage: &'a mut [u8],
        response_timeout_ms: u32,
    ) -> (client: Self)
        ensures
            client.well_formed(),
            client.product() == product,
            client.parameter_capacity() == old(parameter_storage)@.len(),
            client.transmit_capacity() == old(transmit_storage)@.len(),
            client.response_timeout() == response_timeout_ms,
            client.aggregate_length() == 0,
            client.aggregate_offset() == 0,
    {
        AicAssociationClient {
            io,
            product,
            parameter_storage,
            transmit_storage,
            receive_storage,
            response_timeout_ms,
            aggregate_length: 0,
            aggregate_offset: 0,
        }
    }

    /// Sends the WPA2-Personal connect request; the confirmation and indication come
    /// back as events.
    #[verifier::rlimit(80)]
    pub fn start_wpa2_personal_connect(&mut self, parameters: ConnectParameters<'_>) -> (result:
        Result<(), AicAssociationError<<I as AicCommandIo>::Error>>)
        requires
            old(self).well_formed(),
        ensures
            final(self).well_formed(),
            final(self).product() == old(self).product(),
            final(self).parameter_capacity() == old(self).parameter_capacity(),
            final(self).received() == old(self).received(),
            final(self).response_timeout() == old(self).response_timeout(),
            final(self).aggregate_length() == old(self).aggregate_length(),
            final(self).aggregate_offset() == old(self).aggregate_offset(),
            log_extends(old(self).io_log(), final(self).io_log()),
            connect_encode_error(
                old(self).parameter_capacity() as usize,
                parameters.ssid.len(),
                parameters.association_information_elements.len(),
            ) matches Some(error) ==> result == Err::<
                (),
                AicAssociationError<<I as AicCommandIo>::Error>,
            >(AicAssociationError::Encode(error)) && final(self).io_log() == old(self).io_log(),
            result matches Err(AicAssociationError::Encode(error)) ==> connect_encode_error(
                old(self).parameter_capacity() as usize,
                parameters.ssid.len(),
                parameters.association_information_elements.len(),
            ) == Some(error),
            result matches Err(AicAssociationError::Protocol(_)) ==> final(self).io_log() == old(
                self,
            ).io_log(),
            connect_encode_error(
                old(self).parameter_capacity() as usize,
                parameters.ssid.len(),
                parameters.association_information_elements.len(),
            ) is None ==> (spec_command_framing_error(320, old(self).transmit_capacity()) matches Some(
                error,
            ) ==> result == Err::<(), AicAssociationError<<I as AicCommandIo>::Error>>(
                AicAssociationError::Protocol(error),
            ) && final(self).io_log() == old(self).io_log()),
            result matches Err(AicAssociationError::Protocol(error)) ==> spec_command_framing_error(
                320,
                old(self).transmit_capacity(),
            ) == Some(error),
            result is Ok ==> sent_command(
                old(self).product(),
                final(self).io_log().skip(old(self).io_log().len() as int),
                spec_command_transfer(
                    spec_command_header_mode(old(self).product()),
                    SM_CONNECT_REQUEST,
                    SM_TASK_ID,
                    DRIVER_TASK_ID,
                    connect_parameters(parameters),
                ),
            ),
            result is Err ==> result->Err_0 is Encode || result->Err_0 is Protocol
                || result->Err_0 is Send,
            connect_encode_error(
                old(self).parameter_capacity() as usize,
                parameters.ssid.len(),
                parameters.association_information_elements.len(),
            ) is None && spec_command_framing_error(320, old(self).transmit_capacity()) is None ==> (
            result is Ok || result->Err_0 is Send) && send_outcome(
                old(self).product(),
                spec_command_transfer(
                    spec_command_header_mode(old(self).product()),
                    SM_CONNECT_REQUEST,
                    SM_TASK_ID,
                    DRIVER_TASK_ID,
                    connect_parameters(parameters),
                ),
                appended(old(self).io_log(), final(self).io_log()),
                connect_send_result(result),
            ),
    {
        let parameter_length = match encode_wpa2_personal_connect_parameters(
            self.parameter_storage,
            parameters,
        ) {
            Ok(length) => length,
            Err(error) => return Err(AicAssociationError::Encode(error)),
        };
        let parameter = &self.parameter_storage[0..parameter_length];
        assert(parameter@ =~= connect_parameters(parameters));
        let frame_length = match build_command_frame(
            self.transmit_storage,
            self.product.command_header_mode(),
            SM_CONNECT_REQUEST,
            SM_TASK_ID,
            DRIVER_TASK_ID,
            parameter,
        ) {
            Ok(length) => length,
            Err(error) => return Err(AicAssociationError::Protocol(error)),
        };
        let transfer_length = match finalize_command_transfer(self.transmit_storage, frame_length) {
            Ok(length) => length,
            Err(error) => return Err(AicAssociationError::Protocol(error)),
        };
        let (transfer, _rest) = self.transmit_storage.split_at_mut(transfer_length);
        assert(transfer@ =~= spec_command_transfer(
            spec_command_header_mode(self.product),
            SM_CONNECT_REQUEST,
            SM_TASK_ID,
            DRIVER_TASK_ID,
            connect_parameters(parameters),
        ));
        let ghost sent = transfer@;
        let ghost start = self.io.bus_log();
        let sent_result = send_command_transfer(self.io, self.product, transfer);
        match sent_result {
            Ok(()) => {
                proof {
                    let operations = self.io.bus_log().skip(start.len() as int);
                    assert(operations[operations.len() - 1] == command_fifo_write(
                        self.product,
                        sent,
                        true,
                    ));
                }
                Ok(())
            },
            Err(error) => Err(AicAssociationError::Send(error)),
        }
    }

    /// Sends an Ethernet frame (destination, source, type, payload) as a D80 data
    /// transfer and returns its lengths.
    #[verifier::rlimit(80)]
    pub fn send_ethernet_frame(
        &mut self,
        frame: &[u8],
        interface_index: u8,
        station_index: u8,
        confirmation_index: u32,
    ) -> (result: Result<DataTransferLengths, EthernetSendError<<I as AicCommandIo>::Error>>)
        requires
            old(self).well_formed(),
        ensures
            final(self).well_formed(),
            final(self).product() == old(self).product(),
            final(self).parameter_capacity() == old(self).parameter_capacity(),
            final(self).received() == old(self).received(),
            final(self).response_timeout() == old(self).response_timeout(),
            final(self).aggregate_length() == old(self).aggregate_length(),
            final(self).aggregate_offset() == old(self).aggregate_offset(),
            log_extends(old(self).io_log(), final(self).io_log()),
            frame@.len() < 14 ==> result == Err::<
                DataTransferLengths,
                EthernetSendError<<I as AicCommandIo>::Error>,
            >(EthernetSendError::TruncatedFrame { required: 14, available: frame@.len() as usize }),
            frame@.len() >= 14 ==> (crate::tx::data_transfer_error(
                (frame@.len() - 14) as nat,
                old(self).transmit_capacity(),
            ) matches Some(error) ==> result == Err::<
                DataTransferLengths,
                EthernetSendError<<I as AicCommandIo>::Error>,
            >(EthernetSendError::Encode(error))),
            result is Err && !(result->Err_0 is Send) ==> final(self).io_log() == old(self).io_log(),
            result matches Ok(lengths) ==> lengths.frame_length == 18 + frame@.len()
                && lengths.transfer_length == crate::tx::data_transfer_length(
                (18 + frame@.len()) as nat,
            ) && data_send_outcome(
                ethernet_transfer(frame@, interface_index, station_index, confirmation_index),
                final(self).io_log().skip(old(self).io_log().len() as int),
                Ok::<(), DataSendError<<I as AicCommandIo>::Error>>(()),
            ),
            result matches Err(EthernetSendError::Encode(error)) ==> frame@.len() >= 14
                && crate::tx::data_transfer_error(
                (frame@.len() - 14) as nat,
                old(self).transmit_capacity(),
            ) == Some(error),
            frame@.len() >= 14 && crate::tx::data_transfer_error(
                (frame@.len() - 14) as nat,
                old(self).transmit_capacity(),
            ) is None ==> (result is Ok || result->Err_0 is Send) && data_send_outcome(
                ethernet_transfer(frame@, interface_index, station_index, confirmation_index),
                appended(old(self).io_log(), final(self).io_log()),
                ethernet_send_result(result),
            ),
    {
        if frame.len() < 14 {
            return Err(EthernetSendError::TruncatedFrame { required: 14, available: frame.len() });
        }
        let parameters = EthernetTransmitParameters {
            destination_address: array6_at(frame, 0),
            source_address: array6_at(frame, 6),
            ether_type: read_be16(frame, 12),
            interface_index,
            station_index,
            confirmation_index,
        };
        let payload = &frame[14..frame.len()];
        assert(payload@ =~= frame@.skip(14));
        let lengths = match build_d80_ethernet_data_transfer(self.transmit_storage, parameters, payload) {
            Ok(lengths) => lengths,
            Err(error) => return Err(EthernetSendError::Encode(error)),
        };
        let (transfer, _rest) = self.transmit_storage.split_at_mut(lengths.transfer_length);
        assert(transfer@ =~= ethernet_transfer(
            frame@,
            interface_index,
            station_index,
            confirmation_index,
        ));
        match send_d80_data_transfer(self.io, transfer) {
            Ok(()) => Ok(lengths),
            Err(error) => Err(EthernetSendError::Send(error)),
        }
    }

    /// The next event: the next frame of the aggregate last received, or else of the next
    /// transfer the firmware has pending, waiting a millisecond at a time up to the
    /// response timeout.
    #[verifier::rlimit(80)]
    pub fn next_event(&mut self) -> (result: Result<
        AssociationEvent<'_>,
        AicAssociationError<<I as AicCommandIo>::Error>,
    >)
        requires
            old(self).well_formed(),
        ensures
            final(self).well_formed(),
            final(self).product() == old(self).product(),
            final(self).parameter_capacity() == old(self).parameter_capacity(),
            final(self).response_timeout() == old(self).response_timeout(),
            log_extends(old(self).io_log(), final(self).io_log()),
            old(self).aggregate_offset() < old(self).aggregate_length() ==> (spec_aggregate_frame(
                old(self).received(),
                old(self).aggregate_length(),
                old(self).aggregate_offset(),
            ) matches Ok(Some((start, end, next, message_type))) ==> final(self).aggregate_offset()
                == next && final(self).received() == old(self).received() && final(self).io_log()
                == old(self).io_log() && match result {
                Ok(event) => spec_frame_event::<<I as AicCommandIo>::Error>(
                    old(self).received(),
                    start as int,
                    end as int,
                    message_type,
                ) == Ok::<AssociationEventView, AicAssociationError<<I as AicCommandIo>::Error>>(
                    event@,
                ),
                Err(error) => spec_frame_event::<<I as AicCommandIo>::Error>(
                    old(self).received(),
                    start as int,
                    end as int,
                    message_type,
                ) == Err::<AssociationEventView, AicAssociationError<<I as AicCommandIo>::Error>>(
                    error,
                ),
            }),
            old(self).aggregate_offset() < old(self).aggregate_length() ==> (spec_aggregate_frame(
                old(self).received(),
                old(self).aggregate_length(),
                old(self).aggregate_offset(),
            ) matches Err(error) ==> result == Err::<
                AssociationEvent<'_>,
                AicAssociationError<<I as AicCommandIo>::Error>,
            >(AicAssociationError::Decode(aggregate_error(error)))),
            result matches Ok(event) ==> exists|start: int, end: int, message_type: u8|
                0 <= start <= end <= final(self).received().len() && #[trigger] spec_frame_event::<
                    <I as AicCommandIo>::Error,
                >(final(self).received(), start, end, message_type) == Ok::<
                    AssociationEventView,
                    AicAssociationError<<I as AicCommandIo>::Error>,
                >(event@),
            result matches Err(AicAssociationError::Receive(AicResponseError::Timeout {
                milliseconds,
            })) ==> milliseconds == old(self).response_timeout(),
            association_wait(
                old(self).product(),
                old(self).response_timeout(),
                0,
                appended(old(self).io_log(), final(self).io_log()),
                old(self).received(),
                old(self).aggregate_length(),
                old(self).aggregate_offset(),
                final(self).received(),
                final(self).aggregate_length(),
                final(self).aggregate_offset(),
                association_result_view(result),
            ),
    {
        let timeout = self.response_timeout_ms;
        let mut elapsed: u32 = 0;
        let ghost mut started = false;
        let ghost log_start = self.io.bus_log();
        let ghost original = self.receive_storage@;
        let ghost original_length = self.aggregate_length as nat;
        let ghost original_offset = self.aggregate_offset as nat;
        proof {
            assert forall|
                rest: Seq<BusOperation>,
                after: Seq<u8>,
                al: nat,
                ao: nat,
                r: Result<AssociationEventView, AicAssociationError<<I as AicCommandIo>::Error>>,
            |
                #[trigger] association_wait(
                    self.product,
                    timeout,
                    0,
                    rest,
                    original,
                    original_length,
                    original_offset,
                    after,
                    al,
                    ao,
                    r,
                )
                implies association_wait(
                    self.product,
                    timeout,
                    0,
                    appended(log_start, self.io.bus_log()) + rest,
                    original,
                    original_length,
                    original_offset,
                    after,
                    al,
                    ao,
                    r,
                ) by {
                assert(appended(log_start, self.io.bus_log()) + rest =~= rest);
            }
        }
        loop
            invariant_except_break
                forall|
                    rest: Seq<BusOperation>,
                    after: Seq<u8>,
                    al: nat,
                    ao: nat,
                    r: Result<AssociationEventView, AicAssociationError<<I as AicCommandIo>::Error>>,
                |
                    #[trigger] association_wait(
                        self.product,
                        timeout,
                        elapsed as nat,
                        rest,
                        self.receive_storage@,
                        self.aggregate_length as nat,
                        self.aggregate_offset as nat,
                        after,
                        al,
                        ao,
                        r,
                    )
                    ==> association_wait(
                        self.product,
                        timeout,
                        0,
                        appended(log_start, self.io.bus_log()) + rest,
                        original,
                        original_length,
                        original_offset,
                        after,
                        al,
                        ao,
                        r,
                    ),
            invariant
                log_start == old(self).io.bus_log(),
                original == old(self).receive_storage@,
                original_length == old(self).aggregate_length,
                original_offset == old(self).aggregate_offset,
                self.well_formed(),
                self.product() == old(self).product(),
                self.parameter_capacity() == old(self).parameter_capacity(),
                self.response_timeout() == old(self).response_timeout(),
                timeout == old(self).response_timeout(),
                elapsed <= timeout,
                log_extends(old(self).io_log(), self.io_log()),
                !started ==> self.received() == old(self).received() && self.io_log() == old(
                    self,
                ).io_log() && self.aggregate_length() == old(self).aggregate_length()
                    && self.aggregate_offset() == old(self).aggregate_offset(),
                elapsed > 0 ==> started,
                started ==> (old(self).aggregate_offset() < old(self).aggregate_length()
                    ==> spec_aggregate_frame(
                    old(self).received(),
                    old(self).aggregate_length(),
                    old(self).aggregate_offset(),
                ) == Ok::<Option<(usize, usize, usize, u8)>, ProtocolError>(None)),
            ensures
                started,
                association_wait(
                    self.product,
                    timeout,
                    0,
                    appended(log_start, self.io.bus_log()),
                    original,
                    original_length,
                    original_offset,
                    self.receive_storage@,
                    self.aggregate_length as nat,
                    self.aggregate_offset as nat,
                    association_timeout::<<I as AicCommandIo>::Error>(timeout),
                ),
                self.well_formed(),
                self.product() == old(self).product(),
                self.parameter_capacity() == old(self).parameter_capacity(),
                self.response_timeout() == old(self).response_timeout(),
                timeout == old(self).response_timeout(),
                log_extends(old(self).io_log(), self.io_log()),
                started ==> (old(self).aggregate_offset() < old(self).aggregate_length()
                    ==> spec_aggregate_frame(
                    old(self).received(),
                    old(self).aggregate_length(),
                    old(self).aggregate_offset(),
                ) == Ok::<Option<(usize, usize, usize, u8)>, ProtocolError>(None)),
            decreases timeout - elapsed,
        {
            let ghost round_received = self.receive_storage@;
            let ghost round_length = self.aggregate_length as nat;
            let ghost round_offset = self.aggregate_offset as nat;
            let ghost round_log = self.io.bus_log();
            if self.aggregate_offset < self.aggregate_length {
                let bounds = next_aggregate_frame_bounds(
                    self.receive_storage,
                    self.aggregate_length,
                    self.aggregate_offset,
                );
                match bounds {
                    Err(error) => {
                        let decoded = match error {
                            ProtocolError::TruncatedFrame { required, available } =>
                                ConnectDecodeError::TruncatedAggregateFrame { required, available },
                            _ => ConnectDecodeError::TruncatedAggregateFrame {
                                required: 0,
                                available: 0,
                            },
                        };
                        proof {
                            assert(association_wait(
                                self.product,
                                timeout,
                                elapsed as nat,
                                Seq::<BusOperation>::empty(),
                                round_received,
                                round_length,
                                round_offset,
                                round_received,
                                round_length,
                                round_offset,
                                Err::<AssociationEventView, AicAssociationError<<I as AicCommandIo>::Error>>(AicAssociationError::Decode(decoded)),
                            ));
                            assert(appended(log_start, self.io.bus_log()) + Seq::<BusOperation>::empty() =~= appended(log_start, self.io.bus_log()));
                        }
                        return Err(AicAssociationError::Decode(decoded));
                    },
                    Ok(None) => {
                        self.aggregate_offset = self.aggregate_length;
                        proof {
                            if elapsed >= timeout {
                                assert(association_wait(
                                    self.product,
                                    timeout,
                                    elapsed as nat,
                                    Seq::<BusOperation>::empty(),
                                    round_received,
                                    round_length,
                                    round_offset,
                                    round_received,
                                    round_length,
                                    round_length,
                                    association_timeout::<<I as AicCommandIo>::Error>(timeout),
                                ));
                                assert(appended(log_start, self.io.bus_log()) + Seq::<BusOperation>::empty() =~= appended(log_start, self.io.bus_log()));
                            } else {
                                assert forall|
                                    rest: Seq<BusOperation>,
                                    after: Seq<u8>,
                                    al: nat,
                                    ao: nat,
                                    r: Result<AssociationEventView, AicAssociationError<<I as AicCommandIo>::Error>>,
                                |
                                    #[trigger] association_wait(
                                        self.product,
                                        timeout,
                                        (elapsed + 1) as nat,
                                        rest,
                                        round_received,
                                        round_length,
                                        round_length,
                                        after,
                                        al,
                                        ao,
                                        r,
                                    )
                                    implies association_wait(
                                        self.product,
                                        timeout,
                                        0,
                                        appended(log_start, self.io.bus_log()) + rest,
                                        original,
                                        original_length,
                                        original_offset,
                                        after,
                                        al,
                                        ao,
                                        r,
                                    ) by {
                                    assert(association_wait(
                                        self.product,
                                        timeout,
                                        elapsed as nat,
                                        rest,
                                        round_received,
                                        round_length,
                                        round_offset,
                                        after,
                                        al,
                                        ao,
                                        r,
                                    ));
                                }
                            }
                        }
                    },
                    Ok(Some((start, end, next_offset, message_type))) => {
                        self.aggregate_offset = next_offset;
                        let storage: &[u8] = self.receive_storage;
                        let packet = &storage[start..end];
                        let event = if message_type & SDIO_CONFIG_TYPE_MASK != SDIO_CONFIG_TYPE_MASK {
                            match decode_sdio_data_packet(packet) {
                                Ok(frame) => Ok(AssociationEvent::Data(frame)),
                                Err(error) => Ok(AssociationEvent::UndecodedData { packet, error }),
                            }
                        } else if message_type != SDIO_CONFIG_COMMAND_RESPONSE_TYPE {
                            Ok(AssociationEvent::Transport { message_type })
                        } else {
                            match ConfigResponse::parse(packet) {
                                Ok(response) => decode_association_event(response),
                                Err(error) => Err(AicAssociationError::Protocol(error)),
                            }
                        };
                        proof {
                            assert(storage@ == self.received());
                            if event is Ok {
                                assert(spec_frame_event::<<I as AicCommandIo>::Error>(
                                    self.received(),
                                    start as int,
                                    end as int,
                                    message_type,
                                ) == Ok::<
                                    AssociationEventView,
                                    AicAssociationError<<I as AicCommandIo>::Error>,
                                >(event->Ok_0@));
                            }
                        }
                        proof {
                            assert(association_wait(
                                self.product,
                                timeout,
                                elapsed as nat,
                                Seq::<BusOperation>::empty(),
                                round_received,
                                round_length,
                                round_offset,
                                round_received,
                                round_length,
                                next_offset as nat,
                                association_result_view(event),
                            ));
                            assert(appended(log_start, self.io.bus_log()) + Seq::<BusOperation>::empty() =~= appended(log_start, self.io.bus_log()));
                        }
                        return event;
                    },
                }
            } else {
                let polled = receive_pending_frame(self.io, self.product, self.receive_storage);
                let ghost round = appended(round_log, self.io.bus_log());
                let ghost middle = self.receive_storage@;
                proof {
                    assert(appended(log_start, self.io.bus_log()) =~= appended(log_start, round_log) + round);
                }
                match polled {
                    Err(error) => {
                        proof {
                            lemma_association_last_poll(
                                self.product,
                                timeout,
                                elapsed as nat,
                                round,
                                round_received,
                                round_length,
                                round_offset,
                                middle,
                                polled,
                                round_length,
                                round_offset,
                                Err::<AssociationEventView, AicAssociationError<<I as AicCommandIo>::Error>>(AicAssociationError::Receive(error)),
                            );
                        }
                        return Err(AicAssociationError::Receive(error));
                    },
                    Ok(Some(length)) => {
                        self.aggregate_length = length;
                        self.aggregate_offset = 0;
                        proof {
                            if elapsed >= timeout {
                                lemma_association_last_poll(
                                    self.product,
                                    timeout,
                                    elapsed as nat,
                                    round,
                                    round_received,
                                    round_length,
                                    round_offset,
                                    middle,
                                    polled,
                                    length as nat,
                                    0,
                                    association_timeout::<<I as AicCommandIo>::Error>(timeout),
                                );
                            } else {
                                assert forall|
                                    rest: Seq<BusOperation>,
                                    after: Seq<u8>,
                                    al: nat,
                                    ao: nat,
                                    r: Result<AssociationEventView, AicAssociationError<<I as AicCommandIo>::Error>>,
                                |
                                    #[trigger] association_wait(
                                        self.product,
                                        timeout,
                                        (elapsed + 1) as nat,
                                        rest,
                                        middle,
                                        length as nat,
                                        0,
                                        after,
                                        al,
                                        ao,
                                        r,
                                    )
                                    implies association_wait(
                                        self.product,
                                        timeout,
                                        0,
                                        appended(log_start, self.io.bus_log()) + rest,
                                        original,
                                        original_length,
                                        original_offset,
                                        after,
                                        al,
                                        ao,
                                        r,
                                    ) by {
                                    lemma_association_received_round(
                                        self.product,
                                        timeout,
                                        elapsed as nat,
                                        round,
                                        round_received,
                                        round_length,
                                        round_offset,
                                        middle,
                                        length,
                                        rest,
                                        after,
                                        al,
                                        ao,
                                        r,
                                    );
                                    assert(appended(log_start, round_log) + (round + rest) =~= appended(log_start, self.io.bus_log()) + rest);
                                }
                            }
                        }
                    },
                    Ok(None) => {
                        if elapsed < timeout {
                            AicResponseIo::delay_ms(self.io, 1);
                            proof {
                                let delay = seq![BusOperation::DelayMs { milliseconds: 1 }];
                                assert(appended(log_start, self.io.bus_log()) =~= appended(log_start, round_log) + round + delay);
                                assert forall|
                                    rest: Seq<BusOperation>,
                                    after: Seq<u8>,
                                    al: nat,
                                    ao: nat,
                                    r: Result<AssociationEventView, AicAssociationError<<I as AicCommandIo>::Error>>,
                                |
                                    #[trigger] association_wait(
                                        self.product,
                                        timeout,
                                        (elapsed + 1) as nat,
                                        rest,
                                        middle,
                                        round_length,
                                        round_offset,
                                        after,
                                        al,
                                        ao,
                                        r,
                                    )
                                    implies association_wait(
                                        self.product,
                                        timeout,
                                        0,
                                        appended(log_start, self.io.bus_log()) + rest,
                                        original,
                                        original_length,
                                        original_offset,
                                        after,
                                        al,
                                        ao,
                                        r,
                                    ) by {
                                    lemma_association_idle_round(
                                        self.product,
                                        timeout,
                                        elapsed as nat,
                                        round,
                                        round_received,
                                        round_length,
                                        round_offset,
                                        rest,
                                        after,
                                        al,
                                        ao,
                                        r,
                                    );
                                    assert(appended(log_start, round_log) + (round + delay + rest) =~= appended(log_start, self.io.bus_log()) + rest);
                                }
                            }
                        } else {
                            proof {
                                lemma_association_last_poll(
                                    self.product,
                                    timeout,
                                    elapsed as nat,
                                    round,
                                    round_received,
                                    round_length,
                                    round_offset,
                                    middle,
                                    polled,
                                    round_length,
                                    round_offset,
                                    association_timeout::<<I as AicCommandIo>::Error>(timeout),
                                );
                            }
                        }
                    },
                }
            }
            assert(elapsed < timeout ==> forall|
                rest: Seq<BusOperation>,
                after: Seq<u8>,
                al: nat,
                ao: nat,
                r: Result<AssociationEventView, AicAssociationError<<I as AicCommandIo>::Error>>,
            |
                    #[trigger] association_wait(
                        self.product,
                        timeout,
                        (elapsed + 1) as nat,
                        rest,
                        self.receive_storage@,
                        self.aggregate_length as nat,
                        self.aggregate_offset as nat,
                        after,
                        al,
                        ao,
                        r,
                    )
                    ==> association_wait(
                        self.product,
                        timeout,
                        0,
                        appended(log_start, self.io.bus_log()) + rest,
                        original,
                        original_length,
                        original_offset,
                        after,
                        al,
                        ao,
                        r,
                    ));
            proof {
                started = true;
            }
            if elapsed >= timeout {
                break ;
            }
            let ghost prior = elapsed;
            elapsed = elapsed + 1;
            proof {
                assert forall|
                    rest: Seq<BusOperation>,
                    after: Seq<u8>,
                    al: nat,
                    ao: nat,
                    r: Result<AssociationEventView, AicAssociationError<<I as AicCommandIo>::Error>>,
                |
                    #[trigger] association_wait(
                        self.product,
                        timeout,
                        elapsed as nat,
                        rest,
                        self.receive_storage@,
                        self.aggregate_length as nat,
                        self.aggregate_offset as nat,
                        after,
                        al,
                        ao,
                        r,
                    )
                    implies association_wait(
                        self.product,
                        timeout,
                        0,
                        appended(log_start, self.io.bus_log()) + rest,
                        original,
                        original_length,
                        original_offset,
                        after,
                        al,
                        ao,
                        r,
                    ) by {
                    assert(elapsed as nat == (prior + 1) as nat);
                }
            }
        }
        Err(AicAssociationError::Receive(AicResponseError::Timeout { milliseconds: timeout }))
    }
}

} // verus!
