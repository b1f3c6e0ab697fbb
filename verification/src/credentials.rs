//! The Wi-Fi credential frame received over the UART: the passphrase length, the
//! passphrase, the station nonce and a CRC-32 of all of it.
use vstd::prelude::*;

use crate::bytes::{array32_at, le32, le32_at, lemma_le32_roundtrip, read_le32, usize_from_u8};

verus! {

#[derive(Clone, Copy, Debug, Eq, PartialEq)]
pub struct WifiCredentials<'a> {
    pub passphrase: &'a [u8],
    pub station_nonce: [u8; 32],
}

/// What a credential frame holds, as plain values.
pub struct WifiCredentialsView {
    pub passphrase: Seq<u8>,
    pub station_nonce: Seq<u8>,
}

impl<'a> View for WifiCredentials<'a> {
    type V = WifiCredentialsView;

    open spec fn view(&self) -> WifiCredentialsView {
        WifiCredentialsView { passphrase: self.passphrase@, station_nonce: self.station_nonce@ }
    }
}

#[derive(Clone, Copy, Debug, Eq, PartialEq, Structural)]
pub enum WifiCredentialError {
    MissingPassphraseLength,
    InvalidPassphraseLength { length: usize },
    TruncatedFrame { required: usize, available: usize },
    ChecksumMismatch { expected: u32, actual: u32 },
}

/// One bit of the reflected CRC-32: shift right, reducing by 0xedb88320 when the bit
/// shifted out was set.
pub open spec fn crc32_bit_step(crc: u32) -> u32 {
    if crc & 1u32 == 1u32 {
        (crc >> 1u32) ^ 0xedb8_8320u32
    } else {
        crc >> 1u32
    }
}

/// The register after `k` bit steps.
pub open spec fn crc32_bits(crc: u32, k: nat) -> u32
    decreases k,
{
    if k == 0 {
        crc
    } else {
        crc32_bit_step(crc32_bits(crc, (k - 1) as nat))
    }
}

/// The CRC-32 register after `input`, starting from all ones.
pub open spec fn crc32_register(input: Seq<u8>) -> u32
    decreases input.len(),
{
    if input.len() == 0 {
        0xffff_ffffu32
    } else {
        crc32_bits(crc32_register(input.drop_last()) ^ (input.last() as u32), 8)
    }
}

/// The IEEE CRC-32 of `input`: the register inverted.
pub open spec fn spec_crc32(input: Seq<u8>) -> u32 {
    !crc32_register(input)
}

fn crc32_ieee(bytes: &[u8]) -> (crc: u32)
    ensures
        crc == spec_crc32(bytes@),
{
    let mut crc: u32 = 0xffff_ffff;
    let mut i: usize = 0;
    while i < bytes.len()
        invariant
            i <= bytes@.len(),
            crc == crc32_register(bytes@.subrange(0, i as int)),
        decreases bytes@.len() - i,
    {
        crc = crc ^ (bytes[i] as u32);
        let ghost start = crc;
        let mut k: u32 = 0;
        while k < 8
            invariant
                k <= 8,
                crc == crc32_bits(start, k as nat),
            decreases 8 - k,
        {
            if crc & 1 == 1 {
                crc = (crc >> 1) ^ 0xedb8_8320;
            } else {
                crc = crc >> 1;
            }
            k = k + 1;
        }
        assert(bytes@.subrange(0, i + 1).drop_last() =~= bytes@.subrange(0, i as int));
        i = i + 1;
    }
    assert(bytes@.subrange(0, bytes@.len() as int) =~= bytes@);
    !crc
}

/// The length of a credential frame whose passphrase has `passphrase_length` bytes, or
/// why there is none: a WPA2 passphrase has 8 to 63 bytes.
pub open spec fn spec_wire_length(passphrase_length: u8) -> Result<usize, WifiCredentialError> {
    if 8 <= passphrase_length <= 63 {
        Ok((1 + passphrase_length + 32 + 4) as usize)
    } else {
        Err(WifiCredentialError::InvalidPassphraseLength { length: passphrase_length as usize })
    }
}

/// The length of a credential frame whose first byte is `passphrase_length`.
pub fn wifi_credential_wire_length(passphrase_length: u8) -> (result: Result<usize, WifiCredentialError>)
    ensures
        result == spec_wire_length(passphrase_length),
{
    let length = usize_from_u8(passphrase_length);
    if length < 8 || length > 63 {
        return Err(WifiCredentialError::InvalidPassphraseLength { length });
    }
    Ok(1 + length + 32 + 4)
}

/// The credentials in a frame, or why it holds none: the frame must hold the length its
/// first byte gives, and its last four bytes must be the CRC-32 of the rest.
pub open spec fn spec_parse_wifi_credentials(frame: Seq<u8>) -> Result<
    WifiCredentialsView,
    WifiCredentialError,
> {
    if frame.len() == 0 {
        Err(WifiCredentialError::MissingPassphraseLength)
    } else {
        match spec_wire_length(frame[0]) {
            Err(error) => Err(error),
            Ok(required) => {
                let passphrase_end = 1 + frame[0];
                let nonce_end = passphrase_end + 32;
                if frame.len() < required {
                    Err(
                        WifiCredentialError::TruncatedFrame {
                            required,
                            available: frame.len() as usize,
                        },
                    )
                } else if spec_crc32(frame.subrange(0, nonce_end)) != le32_at(frame, nonce_end) {
                    Err(
                        WifiCredentialError::ChecksumMismatch {
                            expected: le32_at(frame, nonce_end),
                            actual: spec_crc32(frame.subrange(0, nonce_end)),
                        },
                    )
                } else {
                    Ok(
                        WifiCredentialsView {
                            passphrase: frame.subrange(1, passphrase_end),
                            station_nonce: frame.subrange(passphrase_end, nonce_end),
                        },
                    )
                }
            },
        }
    }
}

/// Reads the credentials from a frame; the passphrase borrows from it.
pub fn parse_wifi_credentials(frame: &[u8]) -> (result: Result<WifiCredentials<'_>, WifiCredentialError>)
    ensures
        match result {
            Ok(credentials) => spec_parse_wifi_credentials(frame@) == Ok::<
                WifiCredentialsView,
                WifiCredentialError,
            >(credentials@),
            Err(error) => spec_parse_wifi_credentials(frame@) == Err::<
                WifiCredentialsView,
                WifiCredentialError,
            >(error),
        },
{
    if frame.len() == 0 {
        return Err(WifiCredentialError::MissingPassphraseLength);
    }
    let required = match wifi_credential_wire_length(frame[0]) {
        Ok(required) => required,
        Err(error) => return Err(error),
    };
    if frame.len() < required {
        return Err(WifiCredentialError::TruncatedFrame { required, available: frame.len() });
    }
    let passphrase_end = 1 + usize_from_u8(frame[0]);
    let nonce_end = passphrase_end + 32;
    let expected = read_le32(frame, nonce_end);
    let actual = crc32_ieee(&frame[0..nonce_end]);
    if actual != expected {
        return Err(WifiCredentialError::ChecksumMismatch { expected, actual });
    }
    Ok(
        WifiCredentials {
            passphrase: &frame[1..passphrase_end],
            station_nonce: array32_at(frame, passphrase_end),
        },
    )
}

/// The credential frame a sender writes for `passphrase` and `station_nonce`: the
/// passphrase length, the passphrase, the nonce, and the CRC-32 of those, least
/// significant byte first.
pub open spec fn credential_frame(passphrase: Seq<u8>, station_nonce: Seq<u8>) -> Seq<u8> {
    let body = seq![passphrase.len() as u8] + passphrase + station_nonce;
    body + le32(spec_crc32(body))
}

/// A frame written as the sender writes it, followed by anything at all, reads back as the
/// passphrase and nonce it was written with.
pub proof fn lemma_credential_frame_round_trip(
    passphrase: Seq<u8>,
    station_nonce: Seq<u8>,
    trailing: Seq<u8>,
)
    requires
        8 <= passphrase.len() <= 63,
        station_nonce.len() == 32,
    ensures
        spec_parse_wifi_credentials(credential_frame(passphrase, station_nonce) + trailing) == Ok::<
            WifiCredentialsView,
            WifiCredentialError,
        >(WifiCredentialsView { passphrase, station_nonce }),
{
    let body = seq![passphrase.len() as u8] + passphrase + station_nonce;
    let crc = spec_crc32(body);
    let frame = credential_frame(passphrase, station_nonce) + trailing;
    let nonce_end = 1 + passphrase.len() + 32;
    assert(frame[0] == passphrase.len() as u8);
    assert(frame.subrange(0, nonce_end as int) =~= body);
    assert(frame.subrange(1, 1 + passphrase.len() as int) =~= passphrase);
    assert(frame.subrange(1 + passphrase.len() as int, nonce_end as int) =~= station_nonce);
    lemma_le32_roundtrip(crc);
    assert(frame.subrange(nonce_end as int, nonce_end as int + 4) =~= le32(crc));
    assert(le32_at(frame, nonce_end as int) == le32_at(le32(crc), 0));
}

} // verus!
