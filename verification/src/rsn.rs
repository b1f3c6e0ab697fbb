//! The RSN information element: parsing an access point's element and building the
//! station's WPA2-PSK/CCMP element.
use vstd::prelude::*;

use crate::bytes::{array4_at, copy_prefix, le16, le16_at, read_le16};

verus! {

/// Element identifier of the RSN information element.
pub const RSN_INFORMATION_ELEMENT_ID: u8 = 48;

/// The only RSN version defined.
pub const RSN_VERSION: u16 = 1;

/// The CCMP-128 cipher suite selector.
pub const RSN_CIPHER_CCMP: [u8; 4] = [0x00, 0x0f, 0xac, 0x04];

/// The PSK authentication and key management suite selector.
pub const RSN_AKM_PSK: [u8; 4] = [0x00, 0x0f, 0xac, 0x02];

/// The fields of an RSN element that a station needs; the suite lists borrow from the
/// element, four bytes per suite.
#[derive(Clone, Copy, Debug, Eq, PartialEq)]
pub struct RsnInformation<'a> {
    pub group_cipher: [u8; 4],
    pub pairwise_cipher_suites: &'a [u8],
    pub authentication_key_management_suites: &'a [u8],
    pub capabilities: u16,
}

/// What an RSN element holds, as plain values.
pub struct RsnInformationView {
    pub group_cipher: Seq<u8>,
    pub pairwise_cipher_suites: Seq<u8>,
    pub authentication_key_management_suites: Seq<u8>,
    pub capabilities: u16,
}

impl<'a> View for RsnInformation<'a> {
    type V = RsnInformationView;

    open spec fn view(&self) -> RsnInformationView {
        RsnInformationView {
            group_cipher: self.group_cipher@,
            pairwise_cipher_suites: self.pairwise_cipher_suites@,
            authentication_key_management_suites: self.authentication_key_management_suites@,
            capabilities: self.capabilities,
        }
    }
}

#[derive(Clone, Copy, Debug, Eq, PartialEq, Structural)]
pub enum RsnParseError {
    Truncated { required: usize, available: usize },
    UnexpectedElementId { expected: u8, actual: u8 },
    LengthMismatch { declared: usize, actual: usize },
    UnsupportedVersion { expected: u16, actual: u16 },
    EmptyPairwiseCipherList,
    EmptyAuthenticationKeyManagementList,
    LengthOverflow,
    UnexpectedTrailingBytes { count: usize },
}

#[derive(Clone, Copy, Debug, Eq, PartialEq)]
pub enum RsnBuildError {
    OutputTooShort { required: usize, available: usize },
    UnsupportedGroupCipher { actual: [u8; 4] },
    PairwiseCcmpMissing,
    PskAuthenticationMissing,
}

/// The CCMP-128 selector.
pub open spec fn counter_mode_cipher_selector() -> Seq<u8> {
    seq![0x00u8, 0x0fu8, 0xacu8, 0x04u8]
}

/// The PSK selector.
pub open spec fn psk_selector() -> Seq<u8> {
    seq![0x00u8, 0x0fu8, 0xacu8, 0x02u8]
}

fn truncated(required: usize, available: usize) -> (error: RsnParseError)
    ensures
        error == (RsnParseError::Truncated { required, available }),
{
    RsnParseError::Truncated { required, available }
}

/// The suite list at `offset`: where it ends, or why it is malformed. Its first two
/// bytes count its four-byte suites.
pub open spec fn spec_suite_list(input: Seq<u8>, offset: nat, pairwise: bool) -> Result<
    nat,
    RsnParseError,
> {
    if input.len() < offset + 2 {
        Err(
            RsnParseError::Truncated {
                required: (offset + 2) as usize,
                available: input.len() as usize,
            },
        )
    } else if le16_at(input, offset as int) == 0 {
        if pairwise {
            Err(RsnParseError::EmptyPairwiseCipherList)
        } else {
            Err(RsnParseError::EmptyAuthenticationKeyManagementList)
        }
    } else if input.len() < offset + 2 + 4 * le16_at(input, offset as int) {
        Err(
            RsnParseError::Truncated {
                required: (offset + 2 + 4 * le16_at(input, offset as int)) as usize,
                available: input.len() as usize,
            },
        )
    } else {
        Ok((offset + 2 + 4 * le16_at(input, offset as int)) as nat)
    }
}

/// The RSN element `input`, or why it is not one this driver accepts: the element
/// identifier, a length byte that covers exactly the rest, version one, the group
/// cipher, two non-empty suite lists, the capabilities, and nothing after them.
pub open spec fn spec_parse_rsn_information_element(input: Seq<u8>) -> Result<
    RsnInformationView,
    RsnParseError,
> {
    if input.len() < 2 {
        Err(RsnParseError::Truncated { required: 2, available: input.len() as usize })
    } else if input[0] != RSN_INFORMATION_ELEMENT_ID {
        Err(RsnParseError::UnexpectedElementId { expected: RSN_INFORMATION_ELEMENT_ID, actual: input[0] })
    } else if input[1] as nat != input.len() - 2 {
        Err(
            RsnParseError::LengthMismatch {
                declared: input[1] as usize,
                actual: (input.len() - 2) as usize,
            },
        )
    } else if input.len() < 4 {
        Err(RsnParseError::Truncated { required: 4, available: input.len() as usize })
    } else if le16_at(input, 2) != RSN_VERSION {
        Err(RsnParseError::UnsupportedVersion { expected: RSN_VERSION, actual: le16_at(input, 2) })
    } else if input.len() < 8 {
        Err(RsnParseError::Truncated { required: 8, available: input.len() as usize })
    } else {
        match spec_suite_list(input, 8, true) {
            Err(error) => Err(error),
            Ok(pairwise_end) => match spec_suite_list(input, pairwise_end, false) {
                Err(error) => Err(error),
                Ok(akm_end) => if input.len() < akm_end + 2 {
                    Err(
                        RsnParseError::Truncated {
                            required: (akm_end + 2) as usize,
                            available: input.len() as usize,
                        },
                    )
                } else if akm_end + 2 != input.len() {
                    Err(
                        RsnParseError::UnexpectedTrailingBytes {
                            count: (input.len() - (akm_end + 2)) as usize,
                        },
                    )
                } else {
                    Ok(
                        RsnInformationView {
                            group_cipher: input.subrange(4, 8),
                            pairwise_cipher_suites: input.subrange(10, pairwise_end as int),
                            authentication_key_management_suites: input.subrange(
                                pairwise_end as int + 2,
                                akm_end as int,
                            ),
                            capabilities: le16_at(input, akm_end as int),
                        },
                    )
                },
            },
        }
    }
}

/// Parses an access point's RSN information element; the suite lists borrow from `input`.
pub fn parse_rsn_information_element(input: &[u8]) -> (result: Result<
    RsnInformation<'_>,
    RsnParseError,
>)
    ensures
        match result {
            Ok(information) => spec_parse_rsn_information_element(input@) == Ok::<
                RsnInformationView,
                RsnParseError,
            >(information@),
            Err(error) => spec_parse_rsn_information_element(input@) == Err::<
                RsnInformationView,
                RsnParseError,
            >(error),
        },
{
    if input.len() < 2 {
        return Err(truncated(2, input.len()));
    }
    if input[0] != RSN_INFORMATION_ELEMENT_ID {
        return Err(
            RsnParseError::UnexpectedElementId { expected: RSN_INFORMATION_ELEMENT_ID, actual: input[0] },
        );
    }
    let declared_length = input[1] as usize;
    let actual_length = input.len() - 2;
    if declared_length != actual_length {
        return Err(RsnParseError::LengthMismatch { declared: declared_length, actual: actual_length });
    }
    if input.len() < 4 {
        return Err(truncated(4, input.len()));
    }
    let version = read_le16(input, 2);
    if version != RSN_VERSION {
        return Err(RsnParseError::UnsupportedVersion { expected: RSN_VERSION, actual: version });
    }
    if input.len() < 8 {
        return Err(truncated(8, input.len()));
    }
    let group_cipher = array4_at(input, 4);
    let pairwise_end = parse_suite_list(input, 8, true)?;
    let authentication_end = parse_suite_list(input, pairwise_end, false)?;
    if input.len() < authentication_end + 2 {
        return Err(truncated(authentication_end + 2, input.len()));
    }
    let capabilities = read_le16(input, authentication_end);
    if authentication_end + 2 != input.len() {
        return Err(
            RsnParseError::UnexpectedTrailingBytes { count: input.len() - (authentication_end + 2) },
        );
    }
    Ok(
        RsnInformation {
            group_cipher,
            pairwise_cipher_suites: &input[10..pairwise_end],
            authentication_key_management_suites: &input[pairwise_end + 2..authentication_end],
            capabilities,
        },
    )
}

fn parse_suite_list(input: &[u8], offset: usize, pairwise: bool) -> (result: Result<
    usize,
    RsnParseError,
>)
    requires
        input@.len() <= 257,
        offset <= 257,
    ensures
        match result {
            Ok(end) => spec_suite_list(input@, offset as nat, pairwise) == Ok::<nat, RsnParseError>(
                end as nat,
            ),
            Err(error) => spec_suite_list(input@, offset as nat, pairwise) == Err::<
                nat,
                RsnParseError,
            >(error),
        },
{
    if input.len() < offset + 2 {
        return Err(truncated(offset + 2, input.len()));
    }
    let count = read_le16(input, offset) as usize;
    if count == 0 {
        return if pairwise {
            Err(RsnParseError::EmptyPairwiseCipherList)
        } else {
            Err(RsnParseError::EmptyAuthenticationKeyManagementList)
        };
    }
    let end = offset + 2 + count * 4;
    if input.len() < end {
        return Err(truncated(end, input.len()));
    }
    Ok(end)
}

/// Whether `suites` holds `requested` as one of its four-byte suites.
pub open spec fn contains_suite(suites: Seq<u8>, requested: Seq<u8>) -> bool {
    exists|k: int|
        0 <= k && 4 * k + 4 <= suites.len() && #[trigger] suites.subrange(4 * k, 4 * k + 4)
            == requested
}

fn has_suite(suites: &[u8], requested: &[u8; 4]) -> (found: bool)
    ensures
        found == contains_suite(suites@, requested@),
{
    let count = suites.len() / 4;
    let mut k: usize = 0;
    while k < count
        invariant
            k <= count,
            count == suites@.len() / 4,
            suites@.len() == suites.len(),
            forall|m: int|
                0 <= m < k ==> #[trigger] suites@.subrange(4 * m, 4 * m + 4) != requested@,
        decreases count - k,
    {
        assert(k * 4 + 4 <= suites@.len()) by (nonlinear_arith)
            requires
                k < count,
                count == suites@.len() / 4,
        ;
        let start = k * 4;
        if suites[start] == requested[0] && suites[start + 1] == requested[1] && suites[start + 2]
            == requested[2] && suites[start + 3] == requested[3] {
            assert(suites@.subrange(4 * k as int, 4 * k + 4) =~= requested@);
            return true;
        }
        assert(suites@.subrange(4 * k as int, 4 * k + 4) != requested@) by {
            if suites@.subrange(4 * k as int, 4 * k + 4) == requested@ {
                assert(suites@.subrange(4 * k as int, 4 * k + 4)[0] == suites@[4 * k as int]);
                assert(suites@.subrange(4 * k as int, 4 * k + 4)[1] == suites@[4 * k + 1]);
                assert(suites@.subrange(4 * k as int, 4 * k + 4)[2] == suites@[4 * k + 2]);
                assert(suites@.subrange(4 * k as int, 4 * k + 4)[3] == suites@[4 * k + 3]);
            }
        }
        k = k + 1;
    }
    assert forall|m: int| 0 <= m && 4 * m + 4 <= suites@.len() implies #[trigger] suites@.subrange(
        4 * m,
        4 * m + 4,
    ) != requested@ by {
        assert(m < count) by (nonlinear_arith)
            requires
                0 <= m,
                4 * m + 4 <= suites@.len(),
                count == suites@.len() / 4,
        ;
    }
    false
}

/// The station's 22-byte RSN element: version one, CCMP group and pairwise ciphers, PSK
/// authentication, no capabilities.
pub open spec fn station_information_element() -> Seq<u8> {
    seq![
        48u8, 20, 1, 0, 0x00, 0x0f, 0xac, 0x04, 1, 0, 0x00, 0x0f, 0xac, 0x04, 1, 0, 0x00, 0x0f,
        0xac, 0x02, 0, 0,
    ]
}

/// Why the station element cannot be built for an access point in storage of
/// `available` bytes, if it cannot: the access point must use CCMP for group traffic and
/// offer CCMP pairwise and PSK authentication.
pub open spec fn spec_station_element_error<'a>(access_point: RsnInformation<'a>, available: usize) -> Option<
    RsnBuildError,
> {
    if available < 22 {
        Some(RsnBuildError::OutputTooShort { required: 22, available })
    } else if access_point.group_cipher@ != counter_mode_cipher_selector() {
        Some(RsnBuildError::UnsupportedGroupCipher { actual: access_point.group_cipher })
    } else if !contains_suite(access_point.pairwise_cipher_suites@, counter_mode_cipher_selector()) {
        Some(RsnBuildError::PairwiseCcmpMissing)
    } else if !contains_suite(access_point.authentication_key_management_suites@, psk_selector()) {
        Some(RsnBuildError::PskAuthenticationMissing)
    } else {
        None
    }
}

/// Writes the station's WPA2-PSK/CCMP RSN element for an access point at the start of
/// `output` and returns its length.
pub fn build_wpa2_psk_ccmp_station_information_element(
    output: &mut [u8],
    access_point: &RsnInformation<'_>,
) -> (result: Result<usize, RsnBuildError>)
    ensures
        match result {
            Ok(length) => spec_station_element_error(*access_point, old(output).len()) is None
                && length == 22,
            Err(error) => spec_station_element_error(*access_point, old(output).len()) == Some(
                error,
            ),
        },
        result is Ok ==> final(output)@ == station_information_element() + old(output)@.skip(22),
        result is Err ==> final(output)@ == old(output)@,
{
    if output.len() < 22 {
        return Err(RsnBuildError::OutputTooShort { required: 22, available: output.len() });
    }
    let cipher = RSN_CIPHER_CCMP;
    assert(cipher@ =~= counter_mode_cipher_selector());
    if !(access_point.group_cipher[0] == cipher[0] && access_point.group_cipher[1] == cipher[1]
        && access_point.group_cipher[2] == cipher[2] && access_point.group_cipher[3] == cipher[3]) {
        assert(access_point.group_cipher@ != counter_mode_cipher_selector());
        return Err(RsnBuildError::UnsupportedGroupCipher { actual: access_point.group_cipher });
    }
    assert(access_point.group_cipher@ =~= counter_mode_cipher_selector());
    if !has_suite(access_point.pairwise_cipher_suites, &cipher) {
        return Err(RsnBuildError::PairwiseCcmpMissing);
    }
    let psk = RSN_AKM_PSK;
    assert(psk@ =~= psk_selector());
    if !has_suite(access_point.authentication_key_management_suites, &psk) {
        return Err(RsnBuildError::PskAuthenticationMissing);
    }
    let element: [u8; 22] = [
        RSN_INFORMATION_ELEMENT_ID,
        20,
        1,
        0,
        cipher[0],
        cipher[1],
        cipher[2],
        cipher[3],
        1,
        0,
        cipher[0],
        cipher[1],
        cipher[2],
        cipher[3],
        1,
        0,
        psk[0],
        psk[1],
        psk[2],
        psk[3],
        0,
        0,
    ];
    assert(element@ =~= station_information_element());
    copy_prefix(output, &element);
    Ok(22)
}

/// Two bytes read as a little-endian `u16` and written back are the same two bytes.
proof fn lemma_le16_at_rewrites(s: Seq<u8>, i: int)
    requires
        0 <= i,
        i + 2 <= s.len(),
    ensures
        le16(le16_at(s, i)) == s.subrange(i, i + 2),
{
    let a = s[i];
    let b = s[i + 1];
    assert((a + 256 * b) as u16 % 256 == a && (a + 256 * b) as u16 / 256 == b) by (nonlinear_arith)
        requires
            a < 256,
            b < 256,
    ;
    assert(le16(le16_at(s, i)) =~= s.subrange(i, i + 2));
}

/// An element that parses is exactly its identifier, its length byte (the count of the
/// bytes after it), version one, the group cipher, the pairwise suites behind their count,
/// the key management suites behind theirs, and the capabilities; both suite lists are
/// non-empty runs of four-byte suites.
pub proof fn lemma_rsn_element_reconstructs(input: Seq<u8>)
    requires
        spec_parse_rsn_information_element(input) is Ok,
    ensures
        ({
            let r = spec_parse_rsn_information_element(input)->Ok_0;
            let pairwise = r.pairwise_cipher_suites;
            let akm = r.authentication_key_management_suites;
            &&& input.len() == 2 + input[1]
            &&& pairwise.len() >= 4 && pairwise.len() % 4 == 0
            &&& akm.len() >= 4 && akm.len() % 4 == 0
            &&& input == seq![RSN_INFORMATION_ELEMENT_ID, input[1], 1u8, 0u8] + r.group_cipher + le16(
                (pairwise.len() / 4) as u16,
            ) + pairwise + le16((akm.len() / 4) as u16) + akm + le16(r.capabilities)
        }),
{
    let r = spec_parse_rsn_information_element(input)->Ok_0;
    let pe: int = spec_suite_list(input, 8, true)->Ok_0 as int;
    let ae: int = spec_suite_list(input, pe as nat, false)->Ok_0 as int;
    lemma_le16_at_rewrites(input, 2);
    lemma_le16_at_rewrites(input, 8);
    lemma_le16_at_rewrites(input, pe);
    lemma_le16_at_rewrites(input, ae);
    assert(input.subrange(2, 4) == le16(1));
    assert(input[2] == 1 && input[3] == 0) by {
        assert(input.subrange(2, 4)[0] == input[2]);
        assert(input.subrange(2, 4)[1] == input[3]);
    }
    assert(((pe - 10) / 4) as u16 == le16_at(input, 8));
    assert(((ae - pe - 2) / 4) as u16 == le16_at(input, pe));
    assert(input =~= seq![RSN_INFORMATION_ELEMENT_ID, input[1], 1u8, 0u8] + input.subrange(4, 8)
        + input.subrange(8, 10) + input.subrange(10, pe) + input.subrange(pe, pe + 2) + input.subrange(pe + 2, ae)
        + input.subrange(ae, ae + 2));
}

/// The station element is itself a well-formed RSN element offering exactly CCMP for
/// group and pairwise traffic and PSK authentication, so an access point that parses it
/// sees what the station asks for.
pub proof fn lemma_station_element_parses()
    ensures
        spec_parse_rsn_information_element(station_information_element()) == Ok::<
            RsnInformationView,
            RsnParseError,
        >(
            RsnInformationView {
                group_cipher: counter_mode_cipher_selector(),
                pairwise_cipher_suites: counter_mode_cipher_selector(),
                authentication_key_management_suites: psk_selector(),
                capabilities: 0,
            },
        ),
{
    let e = station_information_element();
    assert(e.subrange(4, 8) =~= counter_mode_cipher_selector());
    assert(e.subrange(10, 14) =~= counter_mode_cipher_selector());
    assert(e.subrange(16, 20) =~= psk_selector());
}

} // verus!
