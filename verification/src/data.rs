//! Received data frames: the receive header, the 802.11 data header and the LLC/SNAP
//! encapsulation of an Ethernet payload; and the EAPOL packet header.
use vstd::prelude::*;

use crate::bytes::{array6_at, be16_at, le16_at, read_be16, read_le16};

verus! {

/// Length of the receive header in front of a data frame.
pub const SDIO_RECEIVE_HEADER_LENGTH: usize = 60;

/// Message types with this bit set are configuration traffic.
pub const SDIO_CONFIG_TYPE_MASK: u8 = 0x10;

/// Message type of configuration responses and indications.
pub const SDIO_CONFIG_COMMAND_RESPONSE_TYPE: u8 = 0x11;

/// Ethernet type of EAPOL.
pub const EAPOL_ETHERTYPE: u16 = 0x888e;

/// An Ethernet frame carried in a received 802.11 data frame; the payload borrows from
/// the received packet.
#[derive(Clone, Copy, Debug, Eq, PartialEq)]
pub struct ReceivedEthernetFrame<'a> {
    pub destination: [u8; 6],
    pub source: [u8; 6],
    pub ether_type: u16,
    pub payload: &'a [u8],
    pub qos: bool,
}

/// What a received Ethernet frame holds, as plain values.
pub struct ReceivedEthernetFrameView {
    pub destination: Seq<u8>,
    pub source: Seq<u8>,
    pub ether_type: u16,
    pub payload: Seq<u8>,
    pub qos: bool,
}

impl<'a> View for ReceivedEthernetFrame<'a> {
    type V = ReceivedEthernetFrameView;

    open spec fn view(&self) -> ReceivedEthernetFrameView {
        ReceivedEthernetFrameView {
            destination: self.destination@,
            source: self.source@,
            ether_type: self.ether_type,
            payload: self.payload@,
            qos: self.qos,
        }
    }
}

/// An EAPOL packet: version, type, the body its header declares, and what follows the
/// body; both borrow from the input.
#[derive(Clone, Copy, Debug, Eq, PartialEq)]
pub struct EapolPacket<'a> {
    pub protocol_version: u8,
    pub packet_type: u8,
    pub body: &'a [u8],
    pub trailing: &'a [u8],
}

/// What an EAPOL packet holds, as plain values.
pub struct EapolPacketView {
    pub protocol_version: u8,
    pub packet_type: u8,
    pub body: Seq<u8>,
    pub trailing: Seq<u8>,
}

impl<'a> View for EapolPacket<'a> {
    type V = EapolPacketView;

    open spec fn view(&self) -> EapolPacketView {
        EapolPacketView {
            protocol_version: self.protocol_version,
            packet_type: self.packet_type,
            body: self.body@,
            trailing: self.trailing@,
        }
    }
}

#[derive(Clone, Copy, Debug, Eq, PartialEq, Structural)]
pub enum DataDecodeError {
    Truncated { required: usize, available: usize },
    ConfigFrame { message_type: u8 },
    UnsupportedFrameControl { frame_control: u16 },
    UnsupportedDistributionSystemBits { value: u8 },
    AggregatedMsduUnsupported,
    InvalidLlcSnapHeader,
}

#[derive(Clone, Copy, Debug, Eq, PartialEq, Structural)]
pub enum EapolDecodeError {
    Truncated { required: usize, available: usize },
}

/// The LLC/SNAP header in front of an encapsulated Ethernet payload.
pub open spec fn llc_snap_header() -> Seq<u8> {
    seq![0xaau8, 0xaau8, 0x03u8, 0u8, 0u8, 0u8]
}

/// The 802.11 header length of a data frame: 24 bytes, two more for QoS control, four
/// more for HT control.
pub open spec fn data_header_length(frame: Seq<u8>) -> nat {
    24 + (if frame[0] & 0x80u8 == 0x80u8 {
        2nat
    } else {
        0nat
    }) + (if frame[1] & 0x80u8 != 0 {
        4nat
    } else {
        0nat
    })
}

/// The Ethernet frame that a received data packet carries, or why it carries none: the
/// packet must be a data (not configuration) packet, hold the declared frame, and the
/// frame must be a From-DS data frame without A-MSDU aggregation whose payload starts
/// with the LLC/SNAP header.
pub open spec fn spec_decode_sdio_data_packet(packet: Seq<u8>) -> Result<
    ReceivedEthernetFrameView,
    DataDecodeError,
> {
    let message_type = packet[2] & 0x7fu8;
    let frame_length = le16_at(packet, 0) as nat;
    let required = 60 + frame_length;
    let frame = packet.subrange(60, required as int);
    let qos = frame[0] & 0x80u8 == 0x80u8;
    let header_length: int = data_header_length(frame) as int;
    if packet.len() < 60 {
        Err(DataDecodeError::Truncated { required: 60, available: packet.len() as usize })
    } else if message_type & 0x10u8 == 0x10u8 {
        Err(DataDecodeError::ConfigFrame { message_type })
    } else if packet.len() < required {
        Err(
            DataDecodeError::Truncated {
                required: required as usize,
                available: packet.len() as usize,
            },
        )
    } else if frame_length < 24 {
        Err(DataDecodeError::Truncated { required: 24, available: frame_length as usize })
    } else if frame[0] & 0x0fu8 != 0x08u8 {
        Err(DataDecodeError::UnsupportedFrameControl { frame_control: le16_at(frame, 0) })
    } else if qos && frame_length < 26 {
        Err(DataDecodeError::Truncated { required: 26, available: frame_length as usize })
    } else if qos && frame[24] & 0x80u8 != 0 {
        Err(DataDecodeError::AggregatedMsduUnsupported)
    } else if frame_length < header_length + 8 {
        Err(
            DataDecodeError::Truncated {
                required: (header_length + 8) as usize,
                available: frame_length as usize,
            },
        )
    } else if frame[1] & 0x03u8 != 0x02u8 {
        Err(DataDecodeError::UnsupportedDistributionSystemBits { value: frame[1] & 0x03u8 })
    } else if frame.subrange(header_length, header_length + 6) != llc_snap_header() {
        Err(DataDecodeError::InvalidLlcSnapHeader)
    } else {
        Ok(
            ReceivedEthernetFrameView {
                destination: frame.subrange(4, 10),
                source: frame.subrange(16, 22),
                ether_type: be16_at(frame, header_length + 6),
                payload: frame.skip(header_length + 8),
                qos,
            },
        )
    }
}

/// A data packet whose 802.11 frame is a From-DS data frame decodes to the Ethernet frame
/// behind its header: the header is 24 bytes, two more when the subtype has the QoS bit
/// (0x80 of the first byte), four more when the order bit (0x80 of the second byte)
/// announces HT control, each independently; the LLC/SNAP header follows it, then the
/// Ethernet type and the payload. Destination and source are the first and third
/// addresses.
pub proof fn lemma_data_packet_decodes(packet: Seq<u8>, qos: bool, ht: bool)
    requires
        packet.len() >= 60,
        packet[2] & 0x10u8 == 0,
        packet.len() >= 60 + le16_at(packet, 0),
        ({
            let frame = packet.subrange(60, 60 + le16_at(packet, 0));
            let offset: int = 24 + (if qos {
                2int
            } else {
                0int
            }) + (if ht {
                4int
            } else {
                0int
            });
            &&& frame.len() >= offset + 8
            &&& qos == (frame[0] & 0x80u8 != 0)
            &&& ht == (frame[1] & 0x80u8 != 0)
            &&& frame[0] & 0x0fu8 == 0x08u8
            &&& frame[1] & 0x03u8 == 0x02u8
            &&& qos ==> frame[24] & 0x80u8 == 0
            &&& frame.subrange(offset, offset + 6) == seq![0xaau8, 0xaau8, 0x03u8, 0u8, 0u8, 0u8]
        }),
    ensures
        ({
            let frame = packet.subrange(60, 60 + le16_at(packet, 0));
            let offset: int = 24 + (if qos {
                2int
            } else {
                0int
            }) + (if ht {
                4int
            } else {
                0int
            });
            spec_decode_sdio_data_packet(packet) == Ok::<ReceivedEthernetFrameView, DataDecodeError>(
                ReceivedEthernetFrameView {
                    destination: frame.subrange(4, 10),
                    source: frame.subrange(16, 22),
                    ether_type: (256 * frame[offset + 6] + frame[offset + 7]) as u16,
                    payload: frame.skip(offset + 8),
                    qos,
                },
            )
        }),
{
    let kind = packet[2];
    assert(kind & 0x10u8 == 0 ==> (kind & 0x7fu8) & 0x10u8 != 0x10u8) by (bit_vector);
    let control = packet.subrange(60, 60 + le16_at(packet, 0))[0];
    assert((control & 0x80u8 != 0) == (control & 0x80u8 == 0x80u8)) by (bit_vector);
    let frame = packet.subrange(60, 60 + le16_at(packet, 0));
    let offset: int = 24 + (if qos {
        2int
    } else {
        0int
    }) + (if ht {
        4int
    } else {
        0int
    });
    assert(data_header_length(frame) == offset);
    assert(256 * frame[offset + 6] + frame[offset + 7] < 65536);
}

fn require_length(input: &[u8], required: usize) -> (result: Result<(), DataDecodeError>)
    ensures
        input@.len() < required <==> result == Err::<(), DataDecodeError>(
            DataDecodeError::Truncated { required, available: input@.len() as usize },
        ),
        input@.len() >= required <==> result is Ok,
{
    if input.len() < required {
        Err(DataDecodeError::Truncated { required, available: input.len() })
    } else {
        Ok(())
    }
}

/// Decodes a received data packet into the Ethernet frame it carries; the payload
/// borrows from `packet`.
pub fn decode_sdio_data_packet(packet: &[u8]) -> (result: Result<
    ReceivedEthernetFrame<'_>,
    DataDecodeError,
>)
    ensures
        match result {
            Ok(frame) => spec_decode_sdio_data_packet(packet@) == Ok::<
                ReceivedEthernetFrameView,
                DataDecodeError,
            >(frame@),
            Err(error) => spec_decode_sdio_data_packet(packet@) == Err::<
                ReceivedEthernetFrameView,
                DataDecodeError,
            >(error),
        },
{
    require_length(packet, SDIO_RECEIVE_HEADER_LENGTH)?;
    let message_type = packet[2] & 0x7f;
    if message_type & SDIO_CONFIG_TYPE_MASK == SDIO_CONFIG_TYPE_MASK {
        return Err(DataDecodeError::ConfigFrame { message_type });
    }
    let frame_length = read_le16(packet, 0) as usize;
    let required = SDIO_RECEIVE_HEADER_LENGTH + frame_length;
    require_length(packet, required)?;
    let frame = &packet[SDIO_RECEIVE_HEADER_LENGTH..required];
    require_length(frame, 24)?;
    let frame_control = read_le16(frame, 0);
    if frame[0] & 0x0f != 0x08 {
        return Err(DataDecodeError::UnsupportedFrameControl { frame_control });
    }
    let qos = frame[0] & 0x80 == 0x80;
    let mut header_length: usize = 24;
    if qos {
        require_length(frame, header_length + 2)?;
        if frame[header_length] & 0x80 != 0 {
            return Err(DataDecodeError::AggregatedMsduUnsupported);
        }
        header_length = header_length + 2;
    }
    if frame[1] & 0x80 != 0 {
        header_length = header_length + 4;
    }
    assert(header_length == data_header_length(frame@));
    require_length(frame, header_length + 8)?;
    let distribution_system_bits = frame[1] & 0x03;
    if distribution_system_bits != 0x02 {
        return Err(DataDecodeError::UnsupportedDistributionSystemBits { value: distribution_system_bits });
    }
    let destination = array6_at(frame, 4);
    let source = array6_at(frame, 16);
    if !(frame[header_length] == 0xaa && frame[header_length + 1] == 0xaa && frame[header_length
        + 2] == 0x03 && frame[header_length + 3] == 0 && frame[header_length + 4] == 0
        && frame[header_length + 5] == 0) {
        assert(frame@.subrange(header_length as int, header_length + 6) != llc_snap_header()) by {
            let s = frame@.subrange(header_length as int, header_length + 6);
            if s == llc_snap_header() {
                assert(s[0] == 0xaa && s[1] == 0xaa && s[2] == 3 && s[3] == 0 && s[4] == 0 && s[5]
                    == 0);
            }
        }
        return Err(DataDecodeError::InvalidLlcSnapHeader);
    }
    assert(frame@.subrange(header_length as int, header_length + 6) =~= llc_snap_header());
    let ether_type = read_be16(frame, header_length + 6);
    let payload = &frame[header_length + 8..frame.len()];
    assert(payload@ =~= frame@.skip(header_length + 8));
    Ok(ReceivedEthernetFrame { destination, source, ether_type, payload, qos })
}

/// The EAPOL packet at the start of `input`, or why it does not fit.
pub open spec fn spec_parse_eapol_packet(input: Seq<u8>) -> Result<EapolPacketView, EapolDecodeError> {
    if input.len() < 4 {
        Err(EapolDecodeError::Truncated { required: 4, available: input.len() as usize })
    } else if input.len() < 4 + be16_at(input, 2) {
        Err(
            EapolDecodeError::Truncated {
                required: (4 + be16_at(input, 2)) as usize,
                available: input.len() as usize,
            },
        )
    } else {
        Ok(
            EapolPacketView {
                protocol_version: input[0],
                packet_type: input[1],
                body: input.subrange(4, 4 + be16_at(input, 2)),
                trailing: input.skip(4 + be16_at(input, 2)),
            },
        )
    }
}

/// Splits an EAPOL packet into its header fields, its declared body and what follows.
pub fn parse_eapol_packet(input: &[u8]) -> (result: Result<EapolPacket<'_>, EapolDecodeError>)
    ensures
        match result {
            Ok(packet) => spec_parse_eapol_packet(input@) == Ok::<EapolPacketView, EapolDecodeError>(
                packet@,
            ),
            Err(error) => spec_parse_eapol_packet(input@) == Err::<
                EapolPacketView,
                EapolDecodeError,
            >(error),
        },
{
    if input.len() < 4 {
        return Err(EapolDecodeError::Truncated { required: 4, available: input.len() });
    }
    let body_length = read_be16(input, 2) as usize;
    let required = 4 + body_length;
    if input.len() < required {
        return Err(EapolDecodeError::Truncated { required, available: input.len() });
    }
    let body = &input[4..required];
    let trailing = &input[required..input.len()];
    assert(trailing@ =~= input@.skip(required as int));
    Ok(EapolPacket { protocol_version: input[0], packet_type: input[1], body, trailing })
}

} // verus!
