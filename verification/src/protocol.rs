//! The LMAC configuration command framing: the command header checksum, the
//! command frame layout, the padding of a frame to an SDIO transfer, and the
//! layout of a configuration response.
use vstd::prelude::*;

use crate::bytes::{
    copy_prefix, le16, le16_at, push_le16, push_slice, push_zeros, read_le16, zero_range, zeros,
};

verus! {

/// Total length of the SDIO header that starts every frame.
pub const SDIO_HEADER_SIZE: usize = 4;

/// Frame type of configuration commands and their responses.
pub const CONFIG_COMMAND_RESPONSE_TYPE: u8 = 0x11;

/// Largest command frame that the firmware's command buffer holds.
pub const MAX_COMMAND_FRAME_SIZE: usize = 1536;

/// How the fourth byte of a command header is filled.
#[derive(Clone, Copy, Debug, Eq, PartialEq, Structural)]
pub enum CommandHeaderMode {
    ReservedZero,
    Crc8Polynomial0x107,
}

#[derive(Clone, Copy, Debug, Eq, PartialEq, Structural)]
pub enum ProtocolError {
    ParameterTooLong { length: usize },
    FrameTooLong { length: usize },
    OutputTooShort { required: usize, available: usize },
    TruncatedFrame { required: usize, available: usize },
    UnexpectedFrameType { value: u8 },
}

/// A configuration response: its message identifier and its parameter bytes,
/// borrowed from the received frame.
#[derive(Clone, Copy, Debug, Eq, PartialEq)]
pub struct ConfigResponse<'a> {
    pub id: u16,
    pub parameter: &'a [u8],
}

/// What a configuration response holds, as plain values.
pub struct ConfigResponseView {
    pub id: u16,
    pub parameter: Seq<u8>,
}

impl<'a> View for ConfigResponse<'a> {
    type V = ConfigResponseView;

    open spec fn view(&self) -> ConfigResponseView {
        ConfigResponseView { id: self.id, parameter: self.parameter@ }
    }
}

// ---------------------------------------------------------------------------
// CRC-8 with polynomial x^8 + x^2 + x + 1 (0x107), MSB first, initial value 0.
// ---------------------------------------------------------------------------

/// One bit of the CRC: shift the register left, reducing by the polynomial
/// when its top bit was set, then fold in the data bit selected by `bit`.
pub open spec fn crc8_bit_step(crc: u8, byte: u8, bit: u8) -> u8 {
    let shifted: u8 = if crc & 0x80u8 != 0 {
        (crc << 1u8) ^ 0x07u8
    } else {
        crc << 1u8
    };
    if byte & bit != 0 {
        shifted ^ 0x07u8
    } else {
        shifted
    }
}

/// The register after the `k` most significant bits of `byte`.
pub open spec fn crc8_byte_bits(crc: u8, byte: u8, k: nat) -> u8
    decreases k,
{
    if k == 0 {
        crc
    } else {
        crc8_bit_step(crc8_byte_bits(crc, byte, (k - 1) as nat), byte, 0x80u8 >> ((k - 1) as u8))
    }
}

/// The CRC-8 (polynomial 0x107, initial value zero, no final xor) of `input`.
pub open spec fn spec_crc8(input: Seq<u8>) -> u8
    decreases input.len(),
{
    if input.len() == 0 {
        0
    } else {
        crc8_byte_bits(spec_crc8(input.drop_last()), input.last(), 8)
    }
}

/// Computes the CRC-8 that D80 chips require in the fourth command header byte.
pub fn crc8_polynomial_0x107(input: &[u8]) -> (crc: u8)
    ensures
        crc == spec_crc8(input@),
{
    let mut crc: u8 = 0;
    let mut i: usize = 0;
    while i < input.len()
        invariant
            i <= input@.len(),
            crc == spec_crc8(input@.subrange(0, i as int)),
        decreases input@.len() - i,
    {
        let byte = input[i];
        let ghost start = crc;
        let mut k: u8 = 0;
        while k < 8
            invariant
                k <= 8,
                crc == crc8_byte_bits(start, byte, k as nat),
            decreases 8 - k,
        {
            let bit: u8 = 0x80u8 >> k;
            if crc & 0x80 != 0 {
                crc = (crc << 1u8) ^ 0x07;
            } else {
                crc = crc << 1u8;
            }
            if byte & bit != 0 {
                crc = crc ^ 0x07;
            }
            k = k + 1;
        }
        assert(input@.subrange(0, i + 1).drop_last() =~= input@.subrange(0, i as int));
        i = i + 1;
    }
    assert(input@.subrange(0, input@.len() as int) =~= input@);
    crc
}

// ---------------------------------------------------------------------------
// Command frames.
// ---------------------------------------------------------------------------

/// The length of a command frame that carries `parameter_length` parameter bytes:
/// SDIO header, dummy word, LMAC header, then the parameter.
pub open spec fn command_frame_length(parameter_length: nat) -> nat {
    16 + parameter_length
}

/// The first three header bytes: the 12-bit length of what follows the header, and the type.
pub open spec fn command_header_prefix(parameter_length: nat) -> Seq<u8> {
    let payload = 12 + parameter_length;
    seq![(payload % 256) as u8, ((payload / 256) % 16) as u8, CONFIG_COMMAND_RESPONSE_TYPE]
}

/// The fourth header byte under a checksum rule.
pub open spec fn command_header_check(mode: CommandHeaderMode, prefix: Seq<u8>) -> u8 {
    match mode {
        CommandHeaderMode::ReservedZero => 0,
        CommandHeaderMode::Crc8Polynomial0x107 => spec_crc8(prefix),
    }
}

/// The bytes of a configuration command frame.
pub open spec fn spec_command_frame(
    mode: CommandHeaderMode,
    id: u16,
    destination_id: u16,
    source_id: u16,
    parameter: Seq<u8>,
) -> Seq<u8> {
    let prefix = command_header_prefix(parameter.len());
    prefix + seq![command_header_check(mode, prefix)] + zeros(4) + le16(id) + le16(destination_id)
        + le16(source_id) + le16(parameter.len() as u16) + parameter
}

/// The outcome of building a command frame for a parameter of `parameter_length`
/// bytes into storage of `available` bytes: the frame length, or why it was refused.
pub open spec fn spec_command_frame_outcome(parameter_length: nat, available: nat) -> Result<
    usize,
    ProtocolError,
> {
    if parameter_length > u16::MAX {
        Err(ProtocolError::ParameterTooLong { length: parameter_length as usize })
    } else if command_frame_length(parameter_length) > MAX_COMMAND_FRAME_SIZE {
        Err(ProtocolError::FrameTooLong { length: command_frame_length(parameter_length) as usize })
    } else if available < command_frame_length(parameter_length) {
        Err(
            ProtocolError::OutputTooShort {
                required: command_frame_length(parameter_length) as usize,
                available: available as usize,
            },
        )
    } else {
        Ok(command_frame_length(parameter_length) as usize)
    }
}

/// Writes a configuration command frame at the start of `output` and returns its length.
/// Nothing is written when the parameter or the storage does not fit.
pub fn build_command_frame(
    output: &mut [u8],
    header_mode: CommandHeaderMode,
    id: u16,
    destination_id: u16,
    source_id: u16,
    parameter: &[u8],
) -> (result: Result<usize, ProtocolError>)
    ensures
        result == spec_command_frame_outcome(parameter@.len(), old(output)@.len()),
        result matches Ok(length) ==> final(output)@ == spec_command_frame(
            header_mode,
            id,
            destination_id,
            source_id,
            parameter@,
        ) + old(output)@.skip(length as int),
        result is Err ==> final(output)@ == old(output)@,
{
    if parameter.len() > 0xffff {
        return Err(ProtocolError::ParameterTooLong { length: parameter.len() });
    }
    let parameter_length = parameter.len() as u16;
    let required = 16 + parameter.len();
    if required > MAX_COMMAND_FRAME_SIZE {
        return Err(ProtocolError::FrameTooLong { length: required });
    }
    if output.len() < required {
        return Err(ProtocolError::OutputTooShort { required, available: output.len() });
    }
    let payload = 12 + parameter.len();
    let mut frame: Vec<u8> = Vec::new();
    frame.push((payload % 256) as u8);
    frame.push(((payload / 256) % 16) as u8);
    frame.push(CONFIG_COMMAND_RESPONSE_TYPE);
    let ghost prefix = frame@;
    assert(prefix =~= command_header_prefix(parameter@.len()));
    let check = match header_mode {
        CommandHeaderMode::ReservedZero => 0u8,
        CommandHeaderMode::Crc8Polynomial0x107 => crc8_polynomial_0x107(frame.as_slice()),
    };
    frame.push(check);
    push_zeros(&mut frame, 4);
    push_le16(&mut frame, id);
    push_le16(&mut frame, destination_id);
    push_le16(&mut frame, source_id);
    push_le16(&mut frame, parameter_length);
    push_slice(&mut frame, parameter);
    assert(frame@ =~= spec_command_frame(header_mode, id, destination_id, source_id, parameter@));
    copy_prefix(output, frame.as_slice());
    Ok(required)
}

// ---------------------------------------------------------------------------
// Padding a frame to an SDIO transfer.
// ---------------------------------------------------------------------------

/// `length` rounded up to a multiple of four.
pub open spec fn align4(length: nat) -> nat {
    ((length + 3) / 4) * 4
}

/// The transfer length for a frame: the frame is aligned to four bytes; unless that is a
/// whole number of blocks, a four-byte tail is added and the result is taken to the block
/// after the one that the tail reaches.
pub open spec fn spec_transfer_length(frame_length: nat) -> nat {
    let aligned = align4(frame_length);
    if aligned % 512 == 0 {
        aligned
    } else {
        ((aligned + 4) / 512 + 1) * 512
    }
}

/// Whether every intermediate length of the padding rule fits in a `usize`.
pub open spec fn transfer_length_fits(frame_length: nat) -> bool {
    let aligned = align4(frame_length);
    &&& frame_length + 3 <= usize::MAX
    &&& aligned % 512 != 0 ==> aligned + 4 <= usize::MAX && spec_transfer_length(frame_length)
        <= usize::MAX
}

/// The outcome of padding a frame of `frame_length` bytes in storage of `available` bytes.
pub open spec fn spec_transfer_outcome(frame_length: nat, available: nat) -> Result<
    usize,
    ProtocolError,
> {
    if frame_length > available {
        Err(
            ProtocolError::OutputTooShort {
                required: frame_length as usize,
                available: available as usize,
            },
        )
    } else if !transfer_length_fits(frame_length) {
        Err(ProtocolError::FrameTooLong { length: frame_length as usize })
    } else if spec_transfer_length(frame_length) > available {
        Err(
            ProtocolError::OutputTooShort {
                required: spec_transfer_length(frame_length) as usize,
                available: available as usize,
            },
        )
    } else {
        Ok(spec_transfer_length(frame_length) as usize)
    }
}

/// Pads the frame at the start of `output` with zeros up to the SDIO transfer length and
/// returns that length.
pub fn finalize_command_transfer(output: &mut [u8], frame_length: usize) -> (result: Result<
    usize,
    ProtocolError,
>)
    ensures
        result == spec_transfer_outcome(frame_length as nat, old(output)@.len()),
        result matches Ok(length) ==> final(output)@ == old(output)@.subrange(
            0,
            frame_length as int,
        ) + zeros((length - frame_length) as nat) + old(output)@.skip(length as int),
        result is Err ==> final(output)@ == old(output)@,
{
    if frame_length > output.len() {
        return Err(ProtocolError::OutputTooShort { required: frame_length, available: output.len() });
    }
    if frame_length > usize::MAX - 3 {
        return Err(ProtocolError::FrameTooLong { length: frame_length });
    }
    let aligned_length = ((frame_length + 3) / 4) * 4;
    let transfer_length = if aligned_length % 512 == 0 {
        aligned_length
    } else {
        if aligned_length > usize::MAX - 4 {
            return Err(ProtocolError::FrameTooLong { length: frame_length });
        }
        let blocks = (aligned_length + 4) / 512 + 1;
        if blocks > usize::MAX / 512 {
            return Err(ProtocolError::FrameTooLong { length: frame_length });
        }
        blocks * 512
    };
    if transfer_length > output.len() {
        return Err(
            ProtocolError::OutputTooShort { required: transfer_length, available: output.len() },
        );
    }
    zero_range(output, frame_length, transfer_length);
    Ok(transfer_length)
}

/// A padded transfer is a whole number of blocks, holds the frame, and leaves room for
/// the four-byte tail whenever the aligned frame is not already block aligned.
pub proof fn lemma_transfer_length_shape(frame_length: nat)
    ensures
        spec_transfer_length(frame_length) % 512 == 0,
        spec_transfer_length(frame_length) >= frame_length,
        align4(frame_length) % 512 != 0 ==> spec_transfer_length(frame_length) >= align4(
            frame_length,
        ) + 4,
        spec_transfer_length(frame_length) < frame_length + 1024,
{
    let aligned = align4(frame_length);
    assert(aligned >= frame_length && aligned < frame_length + 4) by (nonlinear_arith)
        requires
            aligned == ((frame_length + 3) / 4) * 4,
    ;
    if aligned % 512 != 0 {
        let t = ((aligned + 4) / 512 + 1) * 512;
        assert(t % 512 == 0 && t > aligned + 4 - 512 + 512 && t <= aligned + 4 + 512) by (
        nonlinear_arith)
            requires
                t == ((aligned + 4) / 512 + 1) * 512,
        ;
    }
}

// ---------------------------------------------------------------------------
// Configuration responses.
// ---------------------------------------------------------------------------

/// The response that a received frame holds, or why it does not hold one.
pub open spec fn spec_parse_config_response(frame: Seq<u8>) -> Result<
    ConfigResponseView,
    ProtocolError,
> {
    if frame.len() < 4 {
        Err(ProtocolError::TruncatedFrame { required: 4, available: frame.len() as usize })
    } else if frame[2] & 0x7fu8 != CONFIG_COMMAND_RESPONSE_TYPE {
        Err(ProtocolError::UnexpectedFrameType { value: frame[2] & 0x7fu8 })
    } else if frame.len() < 16 {
        Err(ProtocolError::TruncatedFrame { required: 16, available: frame.len() as usize })
    } else if frame.len() < 16 + le16_at(frame, 10) {
        Err(
            ProtocolError::TruncatedFrame {
                required: (16 + le16_at(frame, 10)) as usize,
                available: frame.len() as usize,
            },
        )
    } else {
        Ok(
            ConfigResponseView {
                id: le16_at(frame, 4),
                parameter: frame.subrange(16, 16 + le16_at(frame, 10)),
            },
        )
    }
}

impl<'a> ConfigResponse<'a> {
    /// Parses a configuration response frame; the parameter borrows from `frame`.
    pub fn parse(frame: &'a [u8]) -> (result: Result<Self, ProtocolError>)
        ensures
            match result {
                Ok(response) => spec_parse_config_response(frame@) == Ok::<
                    ConfigResponseView,
                    ProtocolError,
                >(response@),
                Err(error) => spec_parse_config_response(frame@) == Err::<
                    ConfigResponseView,
                    ProtocolError,
                >(error),
            },
    {
        if frame.len() < 4 {
            return Err(ProtocolError::TruncatedFrame { required: 4, available: frame.len() });
        }
        let frame_type = frame[2] & 0x7f;
        if frame_type != CONFIG_COMMAND_RESPONSE_TYPE {
            return Err(ProtocolError::UnexpectedFrameType { value: frame_type });
        }
        if frame.len() < 16 {
            return Err(ProtocolError::TruncatedFrame { required: 16, available: frame.len() });
        }
        let id = read_le16(frame, 4);
        let parameter_length = read_le16(frame, 10) as usize;
        let required = 16 + parameter_length;
        if frame.len() < required {
            return Err(ProtocolError::TruncatedFrame { required, available: frame.len() });
        }
        Ok(ConfigResponse { id, parameter: &frame[16..required] })
    }
}

} // verus!
