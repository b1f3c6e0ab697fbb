//! EAPOL-Key frames of the WPA2-PSK/CCMP four-way handshake: parsing messages 1 and 3,
//! walking the key data of message 3, and building messages 2 and 4 with their MICs.
use vstd::prelude::*;

use crate::bytes::{
    array16_at, array32_at, array8_at, be16, be16_at, be64, be64_at, bytes_equal, copy_at,
    copy_prefix, lemma_or_xor_zero, push_be16, push_be64, push_slice, push_zeros, read_be16,
    read_be64, low_u16, u16_from_usize, usize_from_u16, usize_from_u8, usize_of_nat, zeros, int_of,
    nat_of,
};
use crate::data::{
    EapolDecodeError, EapolPacket, EapolPacketView, parse_eapol_packet, spec_parse_eapol_packet,
};
use crate::wpa_crypto::{Wpa2CcmpPairwiseTransientKey, hmac_sha1, hmac_sha1_digest};

verus! {

/// EAPOL protocol version 2 (802.1X-2004).
pub const EAPOL_PROTOCOL_VERSION_2: u8 = 2;

/// EAPOL packet type of EAPOL-Key frames.
pub const EAPOL_KEY_PACKET_TYPE: u8 = 3;

/// Key descriptor type of RSN EAPOL-Key frames.
pub const RSN_KEY_DESCRIPTOR_TYPE: u8 = 2;

/// Key descriptor version of HMAC-SHA1 MICs with AES key wrap.
pub const WPA2_PSK_CCMP_DESCRIPTOR_VERSION: u16 = 2;

/// Key information of message 1: pairwise, ACK, descriptor version 2.
pub const WPA2_PSK_CCMP_MESSAGE_1_KEY_INFORMATION: u16 = 0x008a;

/// Key information of message 2: pairwise, MIC, descriptor version 2.
pub const WPA2_PSK_CCMP_MESSAGE_2_KEY_INFORMATION: u16 = 0x010a;

/// Length of the key body up to and including the key data length field.
const KEY_HEADER_LENGTH: usize = 95;

/// Offset of the key data in the key body.
const KEY_DATA_OFFSET: usize = 95;

/// Offset of the MIC in a whole frame: the EAPOL header and the MIC offset in the body.
const FRAME_MIC_OFFSET: usize = 81;

/// Key information bits that message 3 must carry: pairwise, ACK and MIC.
pub const MESSAGE_3_REQUIRED_INFORMATION: u16 = 0x0188;

/// Key information bits that message 3 must not carry: key index, request, SMK.
pub const MESSAGE_3_PROHIBITED_INFORMATION: u16 = 0x2830;

/// Message 1 of the handshake; key data and trailing bytes borrow from the input.
#[derive(Clone, Copy, Debug, Eq, PartialEq)]
pub struct Wpa2PskCcmpMessage1<'a> {
    pub protocol_version: u8,
    pub key_information: u16,
    pub descriptor_version: u16,
    pub key_length: u16,
    pub replay_counter: u64,
    pub authenticator_nonce: [u8; 32],
    pub key_iv: [u8; 16],
    pub key_rsc: [u8; 8],
    pub key_id: [u8; 8],
    pub key_mic: [u8; 16],
    pub key_data: &'a [u8],
    pub trailing: &'a [u8],
}

/// Message 3 of the handshake, with the flags the station acts on.
#[derive(Clone, Copy, Debug, Eq, PartialEq)]
pub struct Wpa2PskCcmpMessage3<'a> {
    pub protocol_version: u8,
    pub key_information: u16,
    pub descriptor_version: u16,
    pub key_length: u16,
    pub replay_counter: u64,
    pub authenticator_nonce: [u8; 32],
    pub key_iv: [u8; 16],
    pub key_rsc: [u8; 8],
    pub key_id: [u8; 8],
    pub key_mic: [u8; 16],
    pub key_data: &'a [u8],
    pub trailing: &'a [u8],
    pub encrypted_key_data: bool,
    pub install: bool,
    pub secure: bool,
}

/// The group key that message 3 delivers.
#[derive(Clone, Copy, Debug, Eq, PartialEq)]
pub struct Wpa2PskCcmpKeyData {
    pub group_key_index: u8,
    pub group_key_transmit: bool,
    pub group_temporal_key: [u8; 16],
}

#[derive(Clone, Copy, Debug, Eq, PartialEq, Structural)]
pub enum EapolKeyDataDecodeError {
    ElementOverflow { offset: usize, declared: usize, available: usize },
    RsnInformationElementMismatch,
    InvalidGroupKeyLength { actual: usize },
    MissingRsnInformationElement,
    MissingGroupTemporalKey,
}

#[derive(Clone, Copy, Debug, Eq, PartialEq, Structural)]
pub enum EapolKeyDecodeError {
    Eapol(EapolDecodeError),
    UnexpectedProtocolVersion { actual: u8 },
    UnexpectedPacketType { actual: u8 },
    TruncatedKeyBody { required: usize, available: usize },
    UnexpectedDescriptorType { actual: u8 },
    UnexpectedDescriptorVersion { actual: u16 },
    UnexpectedMessage1KeyInformation { actual: u16 },
    MissingMessage3KeyInformation { required: u16, actual: u16 },
    ProhibitedMessage3KeyInformation { prohibited: u16, actual: u16 },
    Message3ReplayCounterNotIncreased { previous: u64, actual: u64 },
    Message3AuthenticatorNonceMismatch,
    UnexpectedMessage3KeyLength { expected: u16, actual: u16 },
    Message3MicMismatch,
    KeyDataOverflow { declared: usize, available: usize },
}

#[derive(Clone, Copy, Debug, Eq, PartialEq, Structural)]
pub enum EapolKeyBuildError {
    OutputTooShort { required: usize, available: usize },
    KeyDataTooLong { maximum: usize, actual: usize },
}

// ---------------------------------------------------------------------------
// Views.
// ---------------------------------------------------------------------------

/// The fields of an EAPOL-Key frame, as plain values.
pub struct EapolKeyFrameView {
    pub protocol_version: u8,
    pub key_information: u16,
    pub descriptor_version: u16,
    pub key_length: u16,
    pub replay_counter: u64,
    pub authenticator_nonce: Seq<u8>,
    pub key_iv: Seq<u8>,
    pub key_rsc: Seq<u8>,
    pub key_id: Seq<u8>,
    pub key_mic: Seq<u8>,
    pub key_data: Seq<u8>,
    pub trailing: Seq<u8>,
}

/// Message 3 as plain values: its frame fields and the three flags.
pub struct Message3View {
    pub frame: EapolKeyFrameView,
    pub encrypted_key_data: bool,
    pub install: bool,
    pub secure: bool,
}

/// A delivered group key as plain values.
pub struct GroupKeyView {
    pub group_key_index: u8,
    pub group_key_transmit: bool,
    pub group_temporal_key: Seq<u8>,
}

impl<'a> View for Wpa2PskCcmpMessage1<'a> {
    type V = EapolKeyFrameView;

    open spec fn view(&self) -> EapolKeyFrameView {
        EapolKeyFrameView {
            protocol_version: self.protocol_version,
            key_information: self.key_information,
            descriptor_version: self.descriptor_version,
            key_length: self.key_length,
            replay_counter: self.replay_counter,
            authenticator_nonce: self.authenticator_nonce@,
            key_iv: self.key_iv@,
            key_rsc: self.key_rsc@,
            key_id: self.key_id@,
            key_mic: self.key_mic@,
            key_data: self.key_data@,
            trailing: self.trailing@,
        }
    }
}

impl<'a> View for Wpa2PskCcmpMessage3<'a> {
    type V = Message3View;

    open spec fn view(&self) -> Message3View {
        Message3View {
            frame: EapolKeyFrameView {
                protocol_version: self.protocol_version,
                key_information: self.key_information,
                descriptor_version: self.descriptor_version,
                key_length: self.key_length,
                replay_counter: self.replay_counter,
                authenticator_nonce: self.authenticator_nonce@,
                key_iv: self.key_iv@,
                key_rsc: self.key_rsc@,
                key_id: self.key_id@,
                key_mic: self.key_mic@,
                key_data: self.key_data@,
                trailing: self.trailing@,
            },
            encrypted_key_data: self.encrypted_key_data,
            install: self.install,
            secure: self.secure,
        }
    }
}

impl View for Wpa2PskCcmpKeyData {
    type V = GroupKeyView;

    open spec fn view(&self) -> GroupKeyView {
        GroupKeyView {
            group_key_index: self.group_key_index,
            group_key_transmit: self.group_key_transmit,
            group_temporal_key: self.group_temporal_key@,
        }
    }
}

// ---------------------------------------------------------------------------
// Parsing messages 1 and 3.
// ---------------------------------------------------------------------------

/// The key data length field of a key body.
pub open spec fn key_data_length(body: Seq<u8>) -> u16 {
    be16_at(body, 93)
}

/// Why an EAPOL packet is not an RSN EAPOL-Key frame with descriptor version 2, if it is
/// not one.
pub open spec fn key_header_error(packet: EapolPacketView) -> Option<EapolKeyDecodeError> {
    let body = packet.body;
    if packet.protocol_version != EAPOL_PROTOCOL_VERSION_2 {
        Some(EapolKeyDecodeError::UnexpectedProtocolVersion { actual: packet.protocol_version })
    } else if packet.packet_type != EAPOL_KEY_PACKET_TYPE {
        Some(EapolKeyDecodeError::UnexpectedPacketType { actual: packet.packet_type })
    } else if body.len() < 95 {
        Some(EapolKeyDecodeError::TruncatedKeyBody { required: 95, available: usize_of_nat(body.len()) })
    } else if body[0] != RSN_KEY_DESCRIPTOR_TYPE {
        Some(EapolKeyDecodeError::UnexpectedDescriptorType { actual: body[0] })
    } else if be16_at(body, 1) & 7u16 != WPA2_PSK_CCMP_DESCRIPTOR_VERSION {
        Some(EapolKeyDecodeError::UnexpectedDescriptorVersion { actual: be16_at(body, 1) & 7u16 })
    } else {
        None
    }
}

/// The overflow error if the declared key data runs past the key body.
pub open spec fn key_data_overflow(body: Seq<u8>) -> Option<EapolKeyDecodeError> {
    if key_data_length(body) > body.len() - 95 {
        Some(
            EapolKeyDecodeError::KeyDataOverflow {
                declared: key_data_length(body) as usize,
                available: (body.len() - 95) as usize,
            },
        )
    } else {
        None
    }
}

/// The fields of a key frame whose header and key data length were accepted.
pub open spec fn key_frame_fields(packet: EapolPacketView) -> EapolKeyFrameView {
    let body = packet.body;
    EapolKeyFrameView {
        protocol_version: packet.protocol_version,
        key_information: be16_at(body, 1),
        descriptor_version: be16_at(body, 1) & 7u16,
        key_length: be16_at(body, 3),
        replay_counter: be64_at(body, 5),
        authenticator_nonce: body.subrange(13, 45),
        key_iv: body.subrange(45, 61),
        key_rsc: body.subrange(61, 69),
        key_id: body.subrange(69, 77),
        key_mic: body.subrange(77, 93),
        key_data: body.subrange(95, 95 + key_data_length(body)),
        trailing: packet.trailing,
    }
}

/// Message 1 in `input`, or why it is not one: an RSN EAPOL-Key frame whose key
/// information is exactly that of message 1 and whose key data fits its body.
pub open spec fn spec_parse_message_1(input: Seq<u8>) -> Result<EapolKeyFrameView, EapolKeyDecodeError> {
    match spec_parse_eapol_packet(input) {
        Err(error) => Err(EapolKeyDecodeError::Eapol(error)),
        Ok(packet) => match key_header_error(packet) {
            Some(error) => Err(error),
            None => if be16_at(packet.body, 1) != WPA2_PSK_CCMP_MESSAGE_1_KEY_INFORMATION {
                Err(EapolKeyDecodeError::UnexpectedMessage1KeyInformation { actual: be16_at(packet.body, 1) })
            } else {
                match key_data_overflow(packet.body) {
                    Some(error) => Err(error),
                    None => Ok(key_frame_fields(packet)),
                }
            },
        },
    }
}

/// Why a key frame cannot be message 3 answering `message_1`, before its MIC is looked
/// at: the pairwise, ACK and MIC bits set, no key index, request or SMK bit, a 16-byte
/// key, a larger replay counter, the same authenticator nonce and key data that fits.
pub open spec fn message_3_error(packet: EapolPacketView, message_1: EapolKeyFrameView) -> Option<
    EapolKeyDecodeError,
> {
    let body = packet.body;
    let information = be16_at(body, 1);
    match key_header_error(packet) {
        Some(error) => Some(error),
        None => if information & MESSAGE_3_REQUIRED_INFORMATION != MESSAGE_3_REQUIRED_INFORMATION {
            Some(
                EapolKeyDecodeError::MissingMessage3KeyInformation {
                    required: MESSAGE_3_REQUIRED_INFORMATION,
                    actual: information,
                },
            )
        } else if information & MESSAGE_3_PROHIBITED_INFORMATION != 0 {
            Some(
                EapolKeyDecodeError::ProhibitedMessage3KeyInformation {
                    prohibited: MESSAGE_3_PROHIBITED_INFORMATION,
                    actual: information,
                },
            )
        } else if be16_at(body, 3) != 16 {
            Some(EapolKeyDecodeError::UnexpectedMessage3KeyLength { expected: 16, actual: be16_at(body, 3) })
        } else if be64_at(body, 5) <= message_1.replay_counter {
            Some(
                EapolKeyDecodeError::Message3ReplayCounterNotIncreased {
                    previous: message_1.replay_counter,
                    actual: be64_at(body, 5),
                },
            )
        } else if body.subrange(13, 45) != message_1.authenticator_nonce {
            Some(EapolKeyDecodeError::Message3AuthenticatorNonceMismatch)
        } else {
            key_data_overflow(body)
        },
    }
}

/// The bytes a key MIC is computed over: the frame up to the end of its body with the MIC
/// field zeroed.
pub open spec fn message_3_mic_input(input: Seq<u8>, body_length: nat) -> Seq<u8> {
    input.subrange(0, 81) + zeros(16) + input.subrange(97, 4 + body_length as int)
}

/// The bytes the MIC of the key frame of `frame_length` bytes at the front of `frame` is
/// computed over.
pub open spec fn frame_mic_input(frame: Seq<u8>, frame_length: usize) -> Seq<u8> {
    message_3_mic_input(frame, (frame_length - 4) as nat)
}

/// Message 3 in `input` answering `message_1`, or why it is not one; its MIC must be the
/// first 16 bytes of the HMAC-SHA1, under the key confirmation key, of the frame with the
/// MIC field zeroed.
pub open spec fn spec_parse_message_3(
    input: Seq<u8>,
    message_1: EapolKeyFrameView,
    key_confirmation_key: Seq<u8>,
) -> Result<Message3View, EapolKeyDecodeError> {
    match spec_parse_eapol_packet(input) {
        Err(error) => Err(EapolKeyDecodeError::Eapol(error)),
        Ok(packet) => match message_3_error(packet, message_1) {
            Some(error) => Err(error),
            None => if packet.body.subrange(77, 93) != hmac_sha1(
                key_confirmation_key,
                message_3_mic_input(input, packet.body.len()),
            ).subrange(0, 16) {
                Err(EapolKeyDecodeError::Message3MicMismatch)
            } else {
                Ok(
                    Message3View {
                        frame: key_frame_fields(packet),
                        encrypted_key_data: be16_at(packet.body, 1) & 0x1000u16 != 0,
                        install: be16_at(packet.body, 1) & 0x0040u16 != 0,
                        secure: be16_at(packet.body, 1) & 0x0200u16 != 0,
                    },
                )
            },
        },
    }
}

/// Checks the EAPOL and key descriptor headers of a key frame.
fn check_key_header(packet: &EapolPacket) -> (error: Option<EapolKeyDecodeError>)
    ensures
        error == key_header_error(packet@),
{
    if packet.protocol_version != EAPOL_PROTOCOL_VERSION_2 {
        return Some(EapolKeyDecodeError::UnexpectedProtocolVersion { actual: packet.protocol_version });
    }
    if packet.packet_type != EAPOL_KEY_PACKET_TYPE {
        return Some(EapolKeyDecodeError::UnexpectedPacketType { actual: packet.packet_type });
    }
    if packet.body.len() < KEY_HEADER_LENGTH {
        return Some(
            EapolKeyDecodeError::TruncatedKeyBody { required: KEY_HEADER_LENGTH, available: packet.body.len() },
        );
    }
    if packet.body[0] != RSN_KEY_DESCRIPTOR_TYPE {
        return Some(EapolKeyDecodeError::UnexpectedDescriptorType { actual: packet.body[0] });
    }
    let descriptor_version = read_be16(packet.body, 1) & 7;
    if descriptor_version != WPA2_PSK_CCMP_DESCRIPTOR_VERSION {
        return Some(EapolKeyDecodeError::UnexpectedDescriptorVersion { actual: descriptor_version });
    }
    None
}

/// Checks that the declared key data fits the key body.
fn check_key_data_length(body: &[u8]) -> (error: Option<EapolKeyDecodeError>)
    requires
        body@.len() >= 95,
    ensures
        error == key_data_overflow(body@),
{
    let declared = read_be16(body, 93) as usize;
    let available = body.len() - KEY_DATA_OFFSET;
    if declared > available {
        Some(EapolKeyDecodeError::KeyDataOverflow { declared, available })
    } else {
        None
    }
}

/// Reads the fields of an accepted key frame.
fn read_key_frame<'a>(packet: &EapolPacket<'a>) -> (frame: Wpa2PskCcmpMessage1<'a>)
    requires
        key_header_error(packet@) is None,
        key_data_overflow(packet@.body) is None,
    ensures
        frame@ == key_frame_fields(packet@),
{
    let body = packet.body;
    let key_information = read_be16(body, 1);
    let key_data_end = KEY_DATA_OFFSET + usize_from_u16(read_be16(body, 93));
    Wpa2PskCcmpMessage1 {
        protocol_version: packet.protocol_version,
        key_information,
        descriptor_version: key_information & 7,
        key_length: read_be16(body, 3),
        replay_counter: read_be64(body, 5),
        authenticator_nonce: array32_at(body, 13),
        key_iv: array16_at(body, 45),
        key_rsc: array8_at(body, 61),
        key_id: array8_at(body, 69),
        key_mic: array16_at(body, 77),
        key_data: &body[KEY_DATA_OFFSET..key_data_end],
        trailing: packet.trailing,
    }
}

/// Parses message 1 of the four-way handshake.
pub fn parse_wpa2_psk_ccmp_message_1(input: &[u8]) -> (result: Result<
    Wpa2PskCcmpMessage1<'_>,
    EapolKeyDecodeError,
>)
    ensures
        match result {
            Ok(message) => spec_parse_message_1(input@) == Ok::<EapolKeyFrameView, EapolKeyDecodeError>(
                message@,
            ),
            Err(error) => spec_parse_message_1(input@) == Err::<EapolKeyFrameView, EapolKeyDecodeError>(
                error,
            ),
        },
{
    let packet = match parse_eapol_packet(input) {
        Ok(packet) => packet,
        Err(error) => return Err(EapolKeyDecodeError::Eapol(error)),
    };
    if let Some(error) = check_key_header(&packet) {
        return Err(error);
    }
    let key_information = read_be16(packet.body, 1);
    if key_information != WPA2_PSK_CCMP_MESSAGE_1_KEY_INFORMATION {
        return Err(EapolKeyDecodeError::UnexpectedMessage1KeyInformation { actual: key_information });
    }
    if let Some(error) = check_key_data_length(packet.body) {
        return Err(error);
    }
    Ok(read_key_frame(&packet))
}

/// Whether a received 16-byte MIC equals the first 16 bytes of an HMAC-SHA1 digest. Every
/// byte is compared whatever the earlier ones were.
pub fn key_mic_matches(received: &[u8; 16], digest: &[u8; 20]) -> (matches: bool)
    ensures
        matches == (received@ == digest@.subrange(0, 16)),
{
    let mut difference: u8 = 0;
    let mut i: usize = 0;
    while i < 16
        invariant
            i <= 16,
            received@.len() == 16,
            digest@.len() == 20,
            (difference == 0) == (forall|j: int| 0 <= j < i ==> received@[j] == digest@[j]),
        decreases 16 - i,
    {
        proof {
            lemma_or_xor_zero(difference, received@[i as int], digest@[i as int]);
        }
        difference = difference | (received[i] ^ digest[i]);
        i = i + 1;
    }
    if difference == 0 {
        assert(received@ =~= digest@.subrange(0, 16));
        true
    } else {
        assert(received@ != digest@.subrange(0, 16)) by {
            if received@ == digest@.subrange(0, 16) {
                assert(forall|j: int| 0 <= j < 16 ==> received@[j] == digest@.subrange(0, 16)[j]);
            }
        }
        false
    }
}

/// The bytes a key MIC is computed over, gathered from `input`.
fn gather_mic_input(input: &[u8], body_length: usize) -> (gathered: Vec<u8>)
    requires
        95 <= body_length,
        4 + body_length <= input@.len(),
    ensures
        gathered@ == message_3_mic_input(input@, body_length as nat),
{
    assert(input@.len() == input.len());
    let mut gathered: Vec<u8> = Vec::new();
    push_slice(&mut gathered, &input[0..FRAME_MIC_OFFSET]);
    push_zeros(&mut gathered, 16);
    push_slice(&mut gathered, &input[FRAME_MIC_OFFSET + 16..4 + body_length]);
    gathered
}

/// Checks a key frame against message 1 before its MIC is looked at.
fn check_message_3(packet: &EapolPacket, message_1: &Wpa2PskCcmpMessage1<'_>) -> (error: Option<
    EapolKeyDecodeError,
>)
    ensures
        error == message_3_error(packet@, message_1@),
{
    if let Some(error) = check_key_header(packet) {
        return Some(error);
    }
    let body = packet.body;
    let key_information = read_be16(body, 1);
    if key_information & MESSAGE_3_REQUIRED_INFORMATION != MESSAGE_3_REQUIRED_INFORMATION {
        return Some(
            EapolKeyDecodeError::MissingMessage3KeyInformation {
                required: MESSAGE_3_REQUIRED_INFORMATION,
                actual: key_information,
            },
        );
    }
    if key_information & MESSAGE_3_PROHIBITED_INFORMATION != 0 {
        return Some(
            EapolKeyDecodeError::ProhibitedMessage3KeyInformation {
                prohibited: MESSAGE_3_PROHIBITED_INFORMATION,
                actual: key_information,
            },
        );
    }
    let key_length = read_be16(body, 3);
    if key_length != 16 {
        return Some(EapolKeyDecodeError::UnexpectedMessage3KeyLength { expected: 16, actual: key_length });
    }
    let replay_counter = read_be64(body, 5);
    if replay_counter <= message_1.replay_counter {
        return Some(
            EapolKeyDecodeError::Message3ReplayCounterNotIncreased {
                previous: message_1.replay_counter,
                actual: replay_counter,
            },
        );
    }
    if !bytes_equal(&body[13..45], &message_1.authenticator_nonce) {
        return Some(EapolKeyDecodeError::Message3AuthenticatorNonceMismatch);
    }
    check_key_data_length(body)
}

/// Parses message 3 of the four-way handshake and checks it against message 1 and the
/// MIC under the pairwise transient key.
pub fn parse_wpa2_psk_ccmp_message_3<'a>(
    input: &'a [u8],
    message_1: &Wpa2PskCcmpMessage1<'_>,
    pairwise_transient_key: &Wpa2CcmpPairwiseTransientKey,
) -> (result: Result<Wpa2PskCcmpMessage3<'a>, EapolKeyDecodeError>)
    ensures
        match result {
            Ok(message) => spec_parse_message_3(
                input@,
                message_1@,
                pairwise_transient_key.spec_key_confirmation_key(),
            ) == Ok::<Message3View, EapolKeyDecodeError>(message@),
            Err(error) => spec_parse_message_3(
                input@,
                message_1@,
                pairwise_transient_key.spec_key_confirmation_key(),
            ) == Err::<Message3View, EapolKeyDecodeError>(error),
        },
{
    let packet = match parse_eapol_packet(input) {
        Ok(packet) => packet,
        Err(error) => return Err(EapolKeyDecodeError::Eapol(error)),
    };
    if let Some(error) = check_message_3(&packet, message_1) {
        return Err(error);
    }
    let frame = read_key_frame(&packet);
    let mic_input = gather_mic_input(input, packet.body.len());
    let digest = hmac_sha1_digest(pairwise_transient_key.key_confirmation_key(), mic_input.as_slice());
    if !key_mic_matches(&frame.key_mic, &digest) {
        return Err(EapolKeyDecodeError::Message3MicMismatch);
    }
    let key_information = frame.key_information;
    Ok(
        Wpa2PskCcmpMessage3 {
            protocol_version: frame.protocol_version,
            key_information,
            descriptor_version: frame.descriptor_version,
            key_length: frame.key_length,
            replay_counter: frame.replay_counter,
            authenticator_nonce: frame.authenticator_nonce,
            key_iv: frame.key_iv,
            key_rsc: frame.key_rsc,
            key_id: frame.key_id,
            key_mic: frame.key_mic,
            key_data: frame.key_data,
            trailing: frame.trailing,
            encrypted_key_data: key_information & 0x1000 != 0,
            install: key_information & 0x0040 != 0,
            secure: key_information & 0x0200 != 0,
        },
    )
}

// ---------------------------------------------------------------------------
// Key data of message 3.
// ---------------------------------------------------------------------------

/// The selector of a GTK key data encapsulation.
pub open spec fn gtk_selector() -> Seq<u8> {
    seq![0x00u8, 0x0fu8, 0xacu8, 0x01u8]
}

/// The result once the walk over the key data elements has stopped.
pub open spec fn key_data_outcome(rsn_found: bool, group_key: Option<GroupKeyView>) -> Result<
    GroupKeyView,
    EapolKeyDataDecodeError,
> {
    if !rsn_found {
        Err(EapolKeyDataDecodeError::MissingRsnInformationElement)
    } else {
        match group_key {
            Some(key) => Ok(key),
            None => Err(EapolKeyDataDecodeError::MissingGroupTemporalKey),
        }
    }
}

/// Walks the key data elements from `offset`: each is an identifier, a length and a
/// body. The walk stops before a lone trailing byte or at an empty vendor element (the
/// padding); an RSN element must equal the access point's, and a GTK encapsulation
/// (a vendor element with the GTK selector) must carry exactly 18 bytes: the key index
/// and transmit flag, a reserved byte and the 16-byte key. The last GTK wins.
pub open spec fn key_data_walk(
    key_data: Seq<u8>,
    access_point_rsn: Seq<u8>,
    offset: nat,
    rsn_found: bool,
    group_key: Option<GroupKeyView>,
) -> Result<GroupKeyView, EapolKeyDataDecodeError>
    decreases key_data.len() - offset,
{
    if offset + 1 < key_data.len() {
        let element_id = key_data[offset as int];
        let total: int = 2 + key_data[offset as int + 1];
        let available: int = key_data.len() - offset;
        let element = key_data.subrange(offset as int, offset + total);
        let body = element.skip(2);
        if element_id == 0xddu8 && key_data[offset as int + 1] == 0 {
            key_data_outcome(rsn_found, group_key)
        } else if total > available {
            Err(
                EapolKeyDataDecodeError::ElementOverflow {
                    offset: offset as usize,
                    declared: total as usize,
                    available: available as usize,
                },
            )
        } else if element_id == 0x30u8 {
            if element != access_point_rsn {
                Err(EapolKeyDataDecodeError::RsnInformationElementMismatch)
            } else {
                key_data_walk(key_data, access_point_rsn, (offset + total) as nat, true, group_key)
            }
        } else if element_id == 0xddu8 && body.len() >= 4 && body.take(4) == gtk_selector() {
            let gtk = body.skip(4);
            if gtk.len() != 18 {
                Err(EapolKeyDataDecodeError::InvalidGroupKeyLength { actual: gtk.len() as usize })
            } else {
                key_data_walk(
                    key_data,
                    access_point_rsn,
                    (offset + total) as nat,
                    rsn_found,
                    Some(
                        GroupKeyView {
                            group_key_index: gtk[0] & 0x03u8,
                            group_key_transmit: gtk[0] & 0x04u8 != 0,
                            group_temporal_key: gtk.skip(2),
                        },
                    ),
                )
            }
        } else {
            key_data_walk(key_data, access_point_rsn, (offset + total) as nat, rsn_found, group_key)
        }
    } else {
        key_data_outcome(rsn_found, group_key)
    }
}

/// The group key found so far, as a plain value.
pub open spec fn found_key_view(group_key: Option<Wpa2PskCcmpKeyData>) -> Option<GroupKeyView> {
    match group_key {
        Some(key) => Some(key@),
        None => None,
    }
}

fn finish_key_data(rsn_found: bool, group_key: Option<Wpa2PskCcmpKeyData>) -> (result: Result<
    Wpa2PskCcmpKeyData,
    EapolKeyDataDecodeError,
>)
    ensures
        match result {
            Ok(key) => key_data_outcome(rsn_found, found_key_view(group_key)) == Ok::<
                GroupKeyView,
                EapolKeyDataDecodeError,
            >(key@),
            Err(error) => key_data_outcome(rsn_found, found_key_view(group_key)) == Err::<
                GroupKeyView,
                EapolKeyDataDecodeError,
            >(error),
        },
{
    if !rsn_found {
        return Err(EapolKeyDataDecodeError::MissingRsnInformationElement);
    }
    match group_key {
        Some(key) => Ok(key),
        None => Err(EapolKeyDataDecodeError::MissingGroupTemporalKey),
    }
}

/// Whether the four bytes at `start` are the GTK selector.
fn is_gtk_selector(bytes: &[u8], start: usize) -> (found: bool)
    requires
        start + 4 <= bytes@.len(),
    ensures
        found == (bytes@.subrange(start as int, start + 4) == gtk_selector()),
{
    let found = bytes[start] == 0x00 && bytes[start + 1] == 0x0f && bytes[start + 2] == 0xac
        && bytes[start + 3] == 0x01;
    if found {
        assert(bytes@.subrange(start as int, start + 4) =~= gtk_selector());
    } else {
        assert(bytes@.subrange(start as int, start + 4) != gtk_selector()) by {
            if bytes@.subrange(start as int, start + 4) == gtk_selector() {
                assert(bytes@.subrange(start as int, start + 4)[0] == bytes@[start as int]);
                assert(bytes@.subrange(start as int, start + 4)[1] == bytes@[start + 1]);
                assert(bytes@.subrange(start as int, start + 4)[2] == bytes@[start + 2]);
                assert(bytes@.subrange(start as int, start + 4)[3] == bytes@[start + 3]);
            }
        }
    }
    found
}

/// Reads the group key of message 3's (decrypted) key data, checking that it carries the
/// access point's RSN element unchanged.
pub fn parse_wpa2_psk_ccmp_key_data(key_data: &[u8], expected_access_point_rsn: &[u8]) -> (result:
    Result<Wpa2PskCcmpKeyData, EapolKeyDataDecodeError>)
    ensures
        match result {
            Ok(key) => key_data_walk(key_data@, expected_access_point_rsn@, 0, false, None) == Ok::<
                GroupKeyView,
                EapolKeyDataDecodeError,
            >(key@),
            Err(error) => key_data_walk(key_data@, expected_access_point_rsn@, 0, false, None)
                == Err::<GroupKeyView, EapolKeyDataDecodeError>(error),
        },
{
    let ghost whole = key_data_walk(key_data@, expected_access_point_rsn@, 0, false, None);
    let mut offset: usize = 0;
    let mut rsn_found = false;
    let mut group_key: Option<Wpa2PskCcmpKeyData> = None;
    while key_data.len() - offset > 1
        invariant
            offset <= key_data@.len(),
            key_data@.len() == key_data.len(),
            whole == key_data_walk(key_data@, expected_access_point_rsn@, 0, false, None),
            whole == key_data_walk(
                key_data@,
                expected_access_point_rsn@,
                nat_of(offset),
                rsn_found,
                found_key_view(group_key),
            ),
        decreases key_data@.len() - offset,
    {
        let element_id = key_data[offset];
        let element_length = key_data[offset + 1];
        if element_id == 0xdd && element_length == 0 {
            return finish_key_data(rsn_found, group_key);
        }
        let total = 2 + usize_from_u8(element_length);
        let available = key_data.len() - offset;
        if total > available {
            return Err(EapolKeyDataDecodeError::ElementOverflow { offset, declared: total, available });
        }
        let end = offset + total;
        let ghost element = key_data@.subrange(int_of(offset), int_of(end));
        if element_id == 0x30 {
            if !bytes_equal(&key_data[offset..end], expected_access_point_rsn) {
                return Err(EapolKeyDataDecodeError::RsnInformationElementMismatch);
            }
            rsn_found = true;
        } else if element_id == 0xdd && total >= 6 && is_gtk_selector(key_data, offset + 2) {
            assert(element.skip(2).take(4) =~= key_data@.subrange(offset + 2, offset + 6));
            if total != 24 {
                return Err(EapolKeyDataDecodeError::InvalidGroupKeyLength { actual: total - 6 });
            }
            let flags = key_data[offset + 6];
            assert(element.skip(2).skip(4).skip(2) =~= key_data@.subrange(offset + 8, offset + 24));
            group_key = Some(
                Wpa2PskCcmpKeyData {
                    group_key_index: flags & 0x03,
                    group_key_transmit: flags & 0x04 != 0,
                    group_temporal_key: array16_at(key_data, offset + 8),
                },
            );
        } else {
            assert(element_id == 0xdd && total >= 6 ==> element.skip(2).take(4) =~= key_data@.subrange(
                offset + 2,
                offset + 6,
            ));
        }
        offset = end;
    }
    finish_key_data(rsn_found, group_key)
}

// ---------------------------------------------------------------------------
// Building messages 2 and 4.
// ---------------------------------------------------------------------------

/// Why message 2 cannot be built with station RSN element of `rsn_length` bytes into
/// `available` bytes, if it cannot: the key data length must fit 16 bits and the frame,
/// 99 bytes plus the element, must fit the output.
pub open spec fn message_2_error(rsn_length: usize, available: usize) -> Option<EapolKeyBuildError> {
    if rsn_length > 0xffff {
        Some(EapolKeyBuildError::KeyDataTooLong { maximum: 0xffff, actual: rsn_length })
    } else if available < 99 + rsn_length {
        Some(EapolKeyBuildError::OutputTooShort { required: (99 + rsn_length) as usize, available })
    } else {
        None
    }
}

/// Message 2 with a zero MIC: pairwise key information with the MIC bit, message 1's
/// replay counter, the station nonce and the station RSN element as key data.
pub open spec fn message_2_unsigned(replay_counter: u64, station_nonce: Seq<u8>, rsn: Seq<u8>) -> Seq<
    u8,
> {
    seq![2u8, 3u8] + be16((95 + rsn.len()) as u16) + seq![2u8] + be16(0x010a) + be16(0) + be64(
        replay_counter,
    ) + station_nonce + zeros(48) + be16(rsn.len() as u16) + rsn
}

/// The key information of message 4: message 3's secure bit and descriptor version, with
/// the pairwise and MIC bits.
pub open spec fn message_4_key_information(key_information: u16, descriptor_version: u16) -> u16 {
    (key_information & 0x0200u16) | descriptor_version | 0x0008u16 | 0x0100u16
}

/// Message 4 with a zero MIC: message 3's protocol version and replay counter, no nonce
/// and no key data.
pub open spec fn message_4_unsigned(message_3: EapolKeyFrameView) -> Seq<u8> {
    seq![message_3.protocol_version, 3u8] + be16(95) + seq![2u8] + be16(
        message_4_key_information(message_3.key_information, message_3.descriptor_version),
    ) + be16(0) + be64(message_3.replay_counter) + zeros(80) + be16(0)
}

/// A key frame with its MIC field set to the first 16 bytes of the HMAC-SHA1, under the
/// key confirmation key, of the frame with a zero MIC.
pub open spec fn signed_frame(key_confirmation_key: Seq<u8>, unsigned: Seq<u8>) -> Seq<u8> {
    unsigned.subrange(0, 81) + hmac_sha1(key_confirmation_key, unsigned).subrange(0, 16)
        + unsigned.skip(97)
}

/// Zeroing the MIC field of a frame signed with a zero MIC field gives back the frame
/// that was signed.
proof fn lemma_signed_frame_mic_input(key_confirmation_key: Seq<u8>, unsigned: Seq<u8>)
    requires
        unsigned.len() >= 97,
        unsigned.subrange(81, 97) == zeros(16),
        hmac_sha1(key_confirmation_key, unsigned).len() == 20,
    ensures
        message_3_mic_input(signed_frame(key_confirmation_key, unsigned), (unsigned.len() - 4) as nat)
            == unsigned,
        signed_frame(key_confirmation_key, unsigned).len() == unsigned.len(),
{
    let signed = signed_frame(key_confirmation_key, unsigned);
    assert(signed.len() == unsigned.len());
    assert(message_3_mic_input(signed, (unsigned.len() - 4) as nat) =~= unsigned);
}

/// Writes `frame` with its MIC over the front of `output`.
fn write_signed(output: &mut [u8], frame: &[u8], key_confirmation_key: &[u8; 16])
    requires
        97 <= frame@.len() <= old(output)@.len(),
        frame@.subrange(81, 97) == zeros(16),
    ensures
        final(output)@ == signed_frame(key_confirmation_key@, frame@) + old(output)@.skip(
            frame@.len() as int,
        ),
        frame_mic_input(final(output)@, frame.len()) == frame@,
        final(output)@.subrange(81, 97) == hmac_sha1(
            key_confirmation_key@,
            frame_mic_input(final(output)@, frame.len()),
        ).subrange(0, 16),
{
    let digest = hmac_sha1_digest(key_confirmation_key, frame);
    let mic = array16_at(&digest, 0);
    let ghost original = output@;
    copy_prefix(output, frame);
    copy_at(output, FRAME_MIC_OFFSET, &mic);
    assert(output@ =~= signed_frame(key_confirmation_key@, frame@) + original.skip(
        frame@.len() as int,
    ));
    proof {
        lemma_signed_frame_mic_input(key_confirmation_key@, frame@);
        let signed = signed_frame(key_confirmation_key@, frame@);
        assert(output@.subrange(0, frame@.len() as int) =~= signed);
        assert(message_3_mic_input(output@, (frame@.len() - 4) as nat) =~= message_3_mic_input(
            signed,
            (frame@.len() - 4) as nat,
        ));
        assert(output@.subrange(81, 97) =~= hmac_sha1(key_confirmation_key@, frame@).subrange(0, 16));
    }
}

/// Builds message 2 of the four-way handshake at the front of `output` and returns its
/// length; nothing is written when it does not fit.
pub fn build_wpa2_psk_ccmp_message_2(
    output: &mut [u8],
    message_1: &Wpa2PskCcmpMessage1<'_>,
    station_nonce: [u8; 32],
    station_rsn_information_element: &[u8],
    pairwise_transient_key: &Wpa2CcmpPairwiseTransientKey,
) -> (result: Result<usize, EapolKeyBuildError>)
    ensures
        match result {
            Ok(length) => message_2_error(station_rsn_information_element.len(), old(output).len())
                is None && length == 99 + station_rsn_information_element@.len() && final(output)@
                == signed_frame(
                pairwise_transient_key.spec_key_confirmation_key(),
                message_2_unsigned(
                    message_1.replay_counter,
                    station_nonce@,
                    station_rsn_information_element@,
                ),
            ) + old(output)@.skip(int_of(length)) && final(output)@.subrange(81, 97) == hmac_sha1(
                pairwise_transient_key.spec_key_confirmation_key(),
                frame_mic_input(final(output)@, length),
            ).subrange(0, 16),
            Err(error) => message_2_error(
                station_rsn_information_element.len(),
                old(output).len(),
            ) == Some(error) && final(output)@ == old(output)@,
        },
{
    let rsn_length = station_rsn_information_element.len();
    if rsn_length > 0xffff {
        return Err(EapolKeyBuildError::KeyDataTooLong { maximum: 0xffff, actual: rsn_length });
    }
    let body_length = KEY_HEADER_LENGTH + rsn_length;
    let required = 4 + body_length;
    if output.len() < required {
        return Err(EapolKeyBuildError::OutputTooShort { required, available: output.len() });
    }
    let mut frame: Vec<u8> = Vec::new();
    frame.push(EAPOL_PROTOCOL_VERSION_2);
    frame.push(EAPOL_KEY_PACKET_TYPE);
    push_be16(&mut frame, low_u16(body_length));
    frame.push(RSN_KEY_DESCRIPTOR_TYPE);
    push_be16(&mut frame, WPA2_PSK_CCMP_MESSAGE_2_KEY_INFORMATION);
    push_be16(&mut frame, 0);
    push_be64(&mut frame, message_1.replay_counter);
    push_slice(&mut frame, &station_nonce);
    push_zeros(&mut frame, 48);
    push_be16(&mut frame, u16_from_usize(rsn_length));
    push_slice(&mut frame, station_rsn_information_element);
    assert(frame@ =~= message_2_unsigned(
        message_1.replay_counter,
        station_nonce@,
        station_rsn_information_element@,
    ));
    assert(frame@.subrange(81, 97) =~= zeros(16));
    write_signed(output, frame.as_slice(), pairwise_transient_key.key_confirmation_key());
    Ok(required)
}

/// Builds message 4 of the four-way handshake at the front of `output` and returns its
/// length; nothing is written when it does not fit.
pub fn build_wpa2_psk_ccmp_message_4(
    output: &mut [u8],
    message_3: &Wpa2PskCcmpMessage3<'_>,
    pairwise_transient_key: &Wpa2CcmpPairwiseTransientKey,
) -> (result: Result<usize, EapolKeyBuildError>)
    ensures
        match result {
            Ok(length) => length == 99 && final(output)@ == signed_frame(
                pairwise_transient_key.spec_key_confirmation_key(),
                message_4_unsigned(message_3@.frame),
            ) + old(output)@.skip(99) && final(output)@.subrange(81, 97) == hmac_sha1(
                pairwise_transient_key.spec_key_confirmation_key(),
                frame_mic_input(final(output)@, 99),
            ).subrange(0, 16),
            Err(error) => old(output)@.len() < 99 && error == (EapolKeyBuildError::OutputTooShort {
                required: 99,
                available: old(output).len(),
            }) && final(output)@ == old(output)@,
        },
{
    if output.len() < 99 {
        return Err(EapolKeyBuildError::OutputTooShort { required: 99, available: output.len() });
    }
    let key_information = (message_3.key_information & 0x0200) | message_3.descriptor_version
        | 0x0008 | 0x0100;
    let mut frame: Vec<u8> = Vec::new();
    frame.push(message_3.protocol_version);
    frame.push(EAPOL_KEY_PACKET_TYPE);
    push_be16(&mut frame, 95);
    frame.push(RSN_KEY_DESCRIPTOR_TYPE);
    push_be16(&mut frame, key_information);
    push_be16(&mut frame, 0);
    push_be64(&mut frame, message_3.replay_counter);
    push_zeros(&mut frame, 80);
    push_be16(&mut frame, 0);
    assert(frame@ =~= message_4_unsigned(message_3@.frame));
    assert(frame@.subrange(81, 97) =~= zeros(16));
    write_signed(output, frame.as_slice(), pairwise_transient_key.key_confirmation_key());
    Ok(99)
}


} // verus!
