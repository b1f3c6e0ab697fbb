//! WPA2-Personal key material: the pairwise master key from the passphrase, the
//! CCMP pairwise transient key from the handshake nonces, and the AES key unwrap of
//! EAPOL-Key data.
use vstd::prelude::*;

use aes::cipher::generic_array::GenericArray;
use aes::cipher::{BlockDecrypt, KeyInit as AesKeyInit};
use aes::Aes128;
use hmac::digest::KeyInit as HmacKeyInit;
use hmac::{Hmac, Mac};
use pbkdf2::pbkdf2_hmac_array;
use sha1::Sha1;
use zeroize::Zeroize;

use crate::bytes::{array16_at, be64, lemma_or_xor_zero, push_slice, zeros};

verus! {

// ---------------------------------------------------------------------------
// Outside primitives.
// ---------------------------------------------------------------------------

/// The 32-byte PBKDF2-HMAC-SHA1 derivation of `password` with `salt` over `rounds`
/// iterations, as the `pbkdf2` crate computes it.
pub uninterp spec fn pbkdf2_hmac_sha1_32(password: Seq<u8>, salt: Seq<u8>, rounds: u32) -> Seq<u8>;

/// The HMAC-SHA1 tag of `message` under `key`, as the `hmac` and `sha1` crates compute it.
pub uninterp spec fn hmac_sha1(key: Seq<u8>, message: Seq<u8>) -> Seq<u8>;

/// The AES-128 decryption of the 16-byte `block` under the 16-byte `key`, as the `aes`
/// crate computes it.
pub uninterp spec fn aes128_decrypt(key: Seq<u8>, block: Seq<u8>) -> Seq<u8>;

/// Calls `pbkdf2::pbkdf2_hmac_array::<Sha1, 32>`. Claimed: the result is the named
/// derivation of exactly these arguments. The crate's HMAC accepts keys of any length, so
/// the call does not fail.
#[verifier::external_body]
fn pbkdf2_hmac_sha1(password: &[u8], salt: &[u8], rounds: u32) -> (key: [u8; 32])
    ensures
        key@ == pbkdf2_hmac_sha1_32(password@, salt@, rounds),
{
    pbkdf2_hmac_array::<Sha1, 32>(password, salt, rounds)
}

/// Calls `Hmac::<Sha1>::new_from_slice`, `Mac::update` once and `Mac::finalize`.
/// Claimed: the 20-byte tag is the named HMAC-SHA1 of exactly `key` and `message`.
/// `new_from_slice` of this HMAC accepts keys of any length and never fails.
#[verifier::external_body]
pub(crate) fn hmac_sha1_digest(key: &[u8], message: &[u8]) -> (digest: [u8; 20])
    ensures
        digest@ == hmac_sha1(key@, message@),
{
    let mut mac = <Hmac<Sha1> as HmacKeyInit>::new_from_slice(key).unwrap();
    mac.update(message);
    mac.finalize().into_bytes().into()
}

/// Calls `Aes128::new` and `BlockDecrypt::decrypt_block` on one block. Claimed: the
/// result is the named AES-128 decryption of exactly `block` under `key`.
#[verifier::external_body]
fn aes128_decrypt_block(key: &[u8; 16], block: &[u8; 16]) -> (plain: [u8; 16])
    ensures
        plain@ == aes128_decrypt(key@, block@),
{
    let cipher = <Aes128 as AesKeyInit>::new(&GenericArray::from(*key));
    let mut data = GenericArray::from(*block);
    cipher.decrypt_block(&mut data);
    data.into()
}

/// Calls `Zeroize::zeroize` on a byte slice. Claimed: every byte is zero afterwards, and
/// the call does not panic (its one assertion, that the length fits in `isize`, holds of
/// every slice).
#[verifier::external_body]
pub(crate) fn zeroize_bytes(buffer: &mut [u8])
    ensures
        final(buffer)@ == zeros(old(buffer)@.len()),
    opens_invariants none
    no_unwind
{
    buffer.zeroize();
}

// ---------------------------------------------------------------------------
// Keys.
// ---------------------------------------------------------------------------

const PASSPHRASE_MINIMUM_LENGTH: usize = 8;
const PASSPHRASE_MAXIMUM_LENGTH: usize = 63;
const SSID_MINIMUM_LENGTH: usize = 1;
const SSID_MAXIMUM_LENGTH: usize = 32;

/// Iterations of PBKDF2 for WPA2-Personal.
pub const PBKDF2_ROUNDS: u32 = 4096;

#[derive(Clone, Copy, Debug, Eq, PartialEq, Structural)]
pub enum CredentialError {
    PassphraseLength { minimum: usize, maximum: usize, actual: usize },
    SsidLength { minimum: usize, maximum: usize, actual: usize },
}

#[derive(Clone, Copy, Debug, Eq, PartialEq, Structural)]
pub enum KeyDataUnwrapError {
    InvalidEncryptedLength { actual: usize },
    OutputTooShort { required: usize, available: usize },
    IntegrityMismatch,
}

/// The 256-bit pairwise master key.
#[derive(Debug, Eq, PartialEq)]
pub struct PairwiseMasterKey([u8; 32]);

impl PairwiseMasterKey {
    /// The key bytes.
    pub closed spec fn spec_bytes(&self) -> Seq<u8> {
        self.0@
    }

    pub fn as_bytes(&self) -> (bytes: &[u8; 32])
        ensures
            bytes@ == self.spec_bytes(),
    {
        &self.0
    }
}

/// Dropping the key overwrites it with zeros.
impl Drop for PairwiseMasterKey {
    fn drop(&mut self)
        opens_invariants none
        no_unwind
    {
        zeroize_bytes(&mut self.0);
    }
}

/// The parts of the CCMP pairwise transient key: key confirmation, key encryption and
/// temporal key, 16 bytes each.
#[derive(Debug, Eq, PartialEq)]
pub struct Wpa2CcmpPairwiseTransientKey {
    key_confirmation_key: [u8; 16],
    key_encryption_key: [u8; 16],
    temporal_key: [u8; 16],
}

impl Wpa2CcmpPairwiseTransientKey {
    pub closed spec fn spec_key_confirmation_key(&self) -> Seq<u8> {
        self.key_confirmation_key@
    }

    pub closed spec fn spec_key_encryption_key(&self) -> Seq<u8> {
        self.key_encryption_key@
    }

    pub closed spec fn spec_temporal_key(&self) -> Seq<u8> {
        self.temporal_key@
    }

    pub fn key_confirmation_key(&self) -> (key: &[u8; 16])
        ensures
            key@ == self.spec_key_confirmation_key(),
    {
        &self.key_confirmation_key
    }

    pub fn key_encryption_key(&self) -> (key: &[u8; 16])
        ensures
            key@ == self.spec_key_encryption_key(),
    {
        &self.key_encryption_key
    }

    pub fn temporal_key(&self) -> (key: &[u8; 16])
        ensures
            key@ == self.spec_temporal_key(),
    {
        &self.temporal_key
    }
}

/// Dropping the keys overwrites them with zeros.
impl Drop for Wpa2CcmpPairwiseTransientKey {
    fn drop(&mut self)
        opens_invariants none
        no_unwind
    {
        zeroize_bytes(&mut self.key_confirmation_key);
        zeroize_bytes(&mut self.key_encryption_key);
        zeroize_bytes(&mut self.temporal_key);
    }
}

/// Why a passphrase and SSID cannot be used, if they cannot: the passphrase must have 8
/// to 63 bytes and the SSID 1 to 32.
pub open spec fn spec_credential_error(passphrase_length: nat, ssid_length: nat) -> Option<
    CredentialError,
> {
    if !(8 <= passphrase_length <= 63) {
        Some(
            CredentialError::PassphraseLength {
                minimum: 8,
                maximum: 63,
                actual: passphrase_length as usize,
            },
        )
    } else if !(1 <= ssid_length <= 32) {
        Some(CredentialError::SsidLength { minimum: 1, maximum: 32, actual: ssid_length as usize })
    } else {
        None
    }
}

/// Derives the pairwise master key of WPA2-Personal: PBKDF2-HMAC-SHA1 of the passphrase
/// salted with the SSID over 4096 iterations.
pub fn derive_wpa2_psk(passphrase: &[u8], ssid: &[u8]) -> (result: Result<
    PairwiseMasterKey,
    CredentialError,
>)
    ensures
        match result {
            Ok(key) => spec_credential_error(passphrase@.len(), ssid@.len()) is None
                && key.spec_bytes() == pbkdf2_hmac_sha1_32(passphrase@, ssid@, PBKDF2_ROUNDS),
            Err(error) => spec_credential_error(passphrase@.len(), ssid@.len()) == Some(error),
        },
{
    if passphrase.len() < PASSPHRASE_MINIMUM_LENGTH || passphrase.len() > PASSPHRASE_MAXIMUM_LENGTH {
        return Err(
            CredentialError::PassphraseLength {
                minimum: PASSPHRASE_MINIMUM_LENGTH,
                maximum: PASSPHRASE_MAXIMUM_LENGTH,
                actual: passphrase.len(),
            },
        );
    }
    if ssid.len() < SSID_MINIMUM_LENGTH || ssid.len() > SSID_MAXIMUM_LENGTH {
        return Err(
            CredentialError::SsidLength {
                minimum: SSID_MINIMUM_LENGTH,
                maximum: SSID_MAXIMUM_LENGTH,
                actual: ssid.len(),
            },
        );
    }
    Ok(PairwiseMasterKey(pbkdf2_hmac_sha1(passphrase, ssid, PBKDF2_ROUNDS)))
}

// ---------------------------------------------------------------------------
// Pairwise transient key.
// ---------------------------------------------------------------------------

/// Lexicographic order on byte strings of equal length.
pub open spec fn lex_less(a: Seq<u8>, b: Seq<u8>) -> bool
    decreases a.len(),
{
    if a.len() == 0 || b.len() == 0 {
        false
    } else if a[0] < b[0] {
        true
    } else if a[0] > b[0] {
        false
    } else {
        lex_less(a.drop_first(), b.drop_first())
    }
}

/// The smaller and the larger of two byte strings; the second one first when they are
/// equal.
pub open spec fn ordered_pair(first: Seq<u8>, second: Seq<u8>) -> (Seq<u8>, Seq<u8>) {
    if lex_less(first, second) {
        (first, second)
    } else {
        (second, first)
    }
}

/// The label of the IEEE 802.11 pairwise key expansion, with its terminating zero.
pub open spec fn pairwise_key_expansion_label() -> Seq<u8> {
    seq![
        0x50u8, 0x61, 0x69, 0x72, 0x77, 0x69, 0x73, 0x65, 0x20, 0x6b, 0x65, 0x79, 0x20, 0x65,
        0x78, 0x70, 0x61, 0x6e, 0x73, 0x69, 0x6f, 0x6e, 0x00,
    ]
}

/// The expansion context: the two addresses and then the two nonces, each pair smaller
/// first.
pub open spec fn ptk_context(
    authenticator_address: Seq<u8>,
    station_address: Seq<u8>,
    authenticator_nonce: Seq<u8>,
    station_nonce: Seq<u8>,
) -> Seq<u8> {
    let addresses = ordered_pair(authenticator_address, station_address);
    let nonces = ordered_pair(authenticator_nonce, station_nonce);
    addresses.0 + addresses.1 + nonces.0 + nonces.1
}

/// The first 60 bytes of the IEEE 802.11 PRF: HMAC-SHA1 of label, context and counter,
/// for the counters 0, 1 and 2.
pub open spec fn ptk_expansion(master_key: Seq<u8>, context: Seq<u8>) -> Seq<u8> {
    let message = |counter: u8| pairwise_key_expansion_label() + context + seq![counter];
    hmac_sha1(master_key, message(0)) + hmac_sha1(master_key, message(1)) + hmac_sha1(
        master_key,
        message(2),
    )
}

/// The CCMP pairwise transient key bytes (KCK, KEK, TK) of a handshake.
pub open spec fn spec_ptk(
    master_key: Seq<u8>,
    authenticator_address: Seq<u8>,
    station_address: Seq<u8>,
    authenticator_nonce: Seq<u8>,
    station_nonce: Seq<u8>,
) -> Seq<u8> {
    ptk_expansion(
        master_key,
        ptk_context(authenticator_address, station_address, authenticator_nonce, station_nonce),
    ).take(48)
}

/// Whether `first` sorts strictly before `second`.
fn less_than(first: &[u8], second: &[u8]) -> (less: bool)
    requires
        first@.len() == second@.len(),
    ensures
        less == lex_less(first@, second@),
{
    assert(first@.skip(0) =~= first@);
    assert(second@.skip(0) =~= second@);
    let mut i: usize = 0;
    while i < first.len()
        invariant
            i <= first@.len(),
            first@.len() == second@.len(),
            lex_less(first@, second@) == lex_less(first@.skip(i as int), second@.skip(i as int)),
        decreases first@.len() - i,
    {
        let a = first[i];
        let b = second[i];
        assert(first@.skip(i as int)[0] == a && second@.skip(i as int)[0] == b);
        if a < b {
            return true;
        }
        if a > b {
            return false;
        }
        assert(first@.skip(i as int).drop_first() =~= first@.skip(i + 1));
        assert(second@.skip(i as int).drop_first() =~= second@.skip(i + 1));
        i = i + 1;
    }
    false
}

/// Appends the smaller then the larger of two equal-length byte strings.
fn push_ordered(out: &mut Vec<u8>, first: &[u8], second: &[u8])
    requires
        first@.len() == second@.len(),
    ensures
        final(out)@ == old(out)@ + ordered_pair(first@, second@).0 + ordered_pair(
            first@,
            second@,
        ).1,
{
    if less_than(first, second) {
        push_slice(out, first);
        push_slice(out, second);
    } else {
        push_slice(out, second);
        push_slice(out, first);
    }
}

/// Derives the CCMP pairwise transient key of a four-way handshake from the master key,
/// the two addresses and the two nonces.
pub fn derive_wpa2_ccmp_ptk(
    pairwise_master_key: &PairwiseMasterKey,
    authenticator_address: [u8; 6],
    station_address: [u8; 6],
    authenticator_nonce: [u8; 32],
    station_nonce: [u8; 32],
) -> (key: Wpa2CcmpPairwiseTransientKey)
    ensures
        key.spec_key_confirmation_key() + key.spec_key_encryption_key() + key.spec_temporal_key()
            == spec_ptk(
            pairwise_master_key.spec_bytes(),
            authenticator_address@,
            station_address@,
            authenticator_nonce@,
            station_nonce@,
        ),
{
    let mut context: Vec<u8> = Vec::new();
    push_ordered(&mut context, &authenticator_address, &station_address);
    push_ordered(&mut context, &authenticator_nonce, &station_nonce);
    let ghost context_bytes = context@;
    assert(context_bytes =~= ptk_context(
        authenticator_address@,
        station_address@,
        authenticator_nonce@,
        station_nonce@,
    ));
    let label: [u8; 23] = [
        0x50, 0x61, 0x69, 0x72, 0x77, 0x69, 0x73, 0x65, 0x20, 0x6b, 0x65, 0x79, 0x20, 0x65, 0x78,
        0x70, 0x61, 0x6e, 0x73, 0x69, 0x6f, 0x6e, 0x00,
    ];
    assert(label@ =~= pairwise_key_expansion_label());
    let mut expanded: Vec<u8> = Vec::new();
    let mut counter: u8 = 0;
    while counter < 3
        invariant
            counter <= 3,
            expanded@.len() == 20 * counter,
            context@ == context_bytes,
            label@ == pairwise_key_expansion_label(),
            expanded@ == (if counter == 0 {
                seq![]
            } else if counter == 1 {
                hmac_sha1(
                    pairwise_master_key.spec_bytes(),
                    pairwise_key_expansion_label() + context_bytes + seq![0u8],
                )
            } else if counter == 2 {
                hmac_sha1(
                    pairwise_master_key.spec_bytes(),
                    pairwise_key_expansion_label() + context_bytes + seq![0u8],
                ) + hmac_sha1(
                    pairwise_master_key.spec_bytes(),
                    pairwise_key_expansion_label() + context_bytes + seq![1u8],
                )
            } else {
                ptk_expansion(pairwise_master_key.spec_bytes(), context_bytes)
            }),
        decreases 3 - counter,
    {
        let mut message: Vec<u8> = Vec::new();
        push_slice(&mut message, &label);
        push_slice(&mut message, context.as_slice());
        message.push(counter);
        assert(message@ =~= pairwise_key_expansion_label() + context_bytes + seq![counter]);
        let digest = hmac_sha1_digest(pairwise_master_key.as_bytes(), message.as_slice());
        push_slice(&mut expanded, &digest);
        counter = counter + 1;
    }
    let ghost expansion = ptk_expansion(pairwise_master_key.spec_bytes(), context_bytes);
    assert(expanded@.len() == 60);
    let key_confirmation_key = array16_at(expanded.as_slice(), 0);
    let key_encryption_key = array16_at(expanded.as_slice(), 16);
    let temporal_key = array16_at(expanded.as_slice(), 32);
    let result = Wpa2CcmpPairwiseTransientKey {
        key_confirmation_key,
        key_encryption_key,
        temporal_key,
    };
    assert(key_confirmation_key@ + key_encryption_key@ + temporal_key@ =~= expansion.take(48));
    zeroize_bytes(context.as_mut_slice());
    zeroize_bytes(expanded.as_mut_slice());
    result
}

/// Swapping the roles of authenticator and station gives the same transient key: the
/// derivation orders addresses and nonces before using them.
pub proof fn lemma_ptk_role_symmetric(
    master_key: Seq<u8>,
    authenticator_address: Seq<u8>,
    station_address: Seq<u8>,
    authenticator_nonce: Seq<u8>,
    station_nonce: Seq<u8>,
)
    requires
        authenticator_address.len() == station_address.len(),
        authenticator_nonce.len() == station_nonce.len(),
    ensures
        spec_ptk(master_key, authenticator_address, station_address, authenticator_nonce, station_nonce)
            == spec_ptk(
            master_key,
            station_address,
            authenticator_address,
            station_nonce,
            authenticator_nonce,
        ),
{
    lemma_ordered_pair_symmetric(authenticator_address, station_address);
    lemma_ordered_pair_symmetric(authenticator_nonce, station_nonce);
}

/// Ordering a pair does not depend on the order in which it is given.
pub proof fn lemma_ordered_pair_symmetric(a: Seq<u8>, b: Seq<u8>)
    requires
        a.len() == b.len(),
    ensures
        ordered_pair(a, b) == ordered_pair(b, a),
{
    lemma_lex_less_trichotomy(a, b);
}

/// Of two equal-length byte strings, either they are equal or exactly one sorts first.
pub proof fn lemma_lex_less_trichotomy(a: Seq<u8>, b: Seq<u8>)
    requires
        a.len() == b.len(),
    ensures
        a == b <==> (!lex_less(a, b) && !lex_less(b, a)),
        !(lex_less(a, b) && lex_less(b, a)),
    decreases a.len(),
{
    if a.len() == 0 {
        assert(a =~= b);
    } else if a[0] == b[0] {
        lemma_lex_less_trichotomy(a.drop_first(), b.drop_first());
        if a.drop_first() == b.drop_first() {
            assert forall|i: int| 0 <= i < a.len() implies a[i] == b[i] by {
                if i > 0 {
                    assert(a[i] == a.drop_first()[i - 1]);
                    assert(b[i] == b.drop_first()[i - 1]);
                }
            }
            assert(a =~= b);
        }
        if a == b {
            assert(a.drop_first() == b.drop_first());
        }
    }
}

/// Byte strings of equal length are ordered by their first differing byte: when `a` and
/// `b` agree before index `k` and `a[k] < b[k]`, `a` sorts first and `b` does not.
pub proof fn lemma_lex_less_first_difference(a: Seq<u8>, b: Seq<u8>, k: int)
    requires
        a.len() == b.len(),
        0 <= k < a.len(),
        a.take(k) == b.take(k),
        a[k] < b[k],
    ensures
        lex_less(a, b),
        !lex_less(b, a),
    decreases k,
{
    if k > 0 {
        assert(a[0] == a.take(k)[0] && b[0] == b.take(k)[0]);
        assert(a.drop_first().take(k - 1) =~= a.take(k).drop_first());
        assert(b.drop_first().take(k - 1) =~= b.take(k).drop_first());
        lemma_lex_less_first_difference(a.drop_first(), b.drop_first(), k - 1);
    }
}

/// Conversely, `a` sorts before `b` only at a first differing byte where `a` is smaller.
pub proof fn lemma_lex_less_has_first_difference(a: Seq<u8>, b: Seq<u8>)
    requires
        a.len() == b.len(),
        lex_less(a, b),
    ensures
        exists|k: int| 0 <= k < a.len() && a.take(k) == b.take(k) && a[k] < b[k],
    decreases a.len(),
{
    if a[0] < b[0] {
        assert(a.take(0) =~= b.take(0));
    } else {
        lemma_lex_less_has_first_difference(a.drop_first(), b.drop_first());
        let k = choose|k: int|
            0 <= k < a.drop_first().len() && a.drop_first().take(k) == b.drop_first().take(k)
                && a.drop_first()[k] < b.drop_first()[k];
        assert(a.take(k + 1) =~= seq![a[0]] + a.drop_first().take(k));
        assert(b.take(k + 1) =~= seq![b[0]] + b.drop_first().take(k));
        assert(a[k + 1] == a.drop_first()[k] && b[k + 1] == b.drop_first()[k]);
    }
}

/// The key expansion context starts with the address that sorts first at the first byte
/// where the two addresses differ, then the other one; likewise for the nonces after them.
pub proof fn lemma_ptk_context_smaller_first(
    authenticator_address: Seq<u8>,
    station_address: Seq<u8>,
    authenticator_nonce: Seq<u8>,
    station_nonce: Seq<u8>,
    k: int,
)
    requires
        authenticator_address.len() == 6,
        station_address.len() == 6,
        authenticator_nonce.len() == 32,
        station_nonce.len() == 32,
        0 <= k < 6,
        authenticator_address.take(k) == station_address.take(k),
        authenticator_address[k] != station_address[k],
    ensures
        ({
            let context = ptk_context(
                authenticator_address,
                station_address,
                authenticator_nonce,
                station_nonce,
            );
            let (smaller, larger) = if authenticator_address[k] < station_address[k] {
                (authenticator_address, station_address)
            } else {
                (station_address, authenticator_address)
            };
            context.take(6) == smaller && context.subrange(6, 12) == larger
        }),
{
    if authenticator_address[k] < station_address[k] {
        lemma_lex_less_first_difference(authenticator_address, station_address, k);
    } else {
        lemma_lex_less_first_difference(station_address, authenticator_address, k);
    }
    let context = ptk_context(authenticator_address, station_address, authenticator_nonce, station_nonce);
    let addresses = ordered_pair(authenticator_address, station_address);
    let nonces = ordered_pair(authenticator_nonce, station_nonce);
    assert(context == addresses.0 + addresses.1 + nonces.0 + nonces.1);
    assert(context.take(6) =~= addresses.0);
    assert(context.subrange(6, 12) =~= addresses.1);
}

// ---------------------------------------------------------------------------
// AES key unwrap (RFC 3394) of EAPOL-Key data.
// ---------------------------------------------------------------------------

/// The 64-bit value that an intact unwrap leaves in the integrity register.
pub open spec fn key_wrap_initial_value() -> Seq<u8> {
    Seq::new(8, |i: int| 0xa6u8)
}

/// Bytewise exclusive or of two 8-byte strings.
pub open spec fn xor8(a: Seq<u8>, b: Seq<u8>) -> Seq<u8> {
    Seq::new(8, |i: int| a[i] ^ b[i])
}

/// One unwrap step on block `i` of round `j` for `n` blocks: decrypt the integrity
/// register, xored with the step counter, followed by the block; the first half becomes
/// the register and the second half the block.
pub open spec fn unwrap_step(
    key: Seq<u8>,
    state: (Seq<u8>, Seq<u8>),
    n: nat,
    j: nat,
    i: nat,
) -> (Seq<u8>, Seq<u8>) {
    let (register, blocks) = state;
    let start = 8 * (i - 1);
    let input = xor8(register, be64((n * j + i) as u64)) + blocks.subrange(start, start + 8);
    let output = aes128_decrypt(key, input);
    (
        output.subrange(0, 8),
        blocks.subrange(0, start) + output.subrange(8, 16) + blocks.skip(start + 8),
    )
}

/// Round `j` of the unwrap from block `i` down to block one.
#[verifier::opaque]
pub open spec fn unwrap_blocks(
    key: Seq<u8>,
    state: (Seq<u8>, Seq<u8>),
    n: nat,
    j: nat,
    i: nat,
) -> (Seq<u8>, Seq<u8>)
    decreases i,
{
    if i == 0 {
        state
    } else {
        unwrap_blocks(key, unwrap_step(key, state, n, j, i), n, j, (i - 1) as nat)
    }
}

/// Rounds `rounds - 1` down to zero of the unwrap.
#[verifier::opaque]
pub open spec fn unwrap_rounds(key: Seq<u8>, state: (Seq<u8>, Seq<u8>), n: nat, rounds: nat) -> (
    Seq<u8>,
    Seq<u8>,
)
    decreases rounds,
{
    if rounds == 0 {
        state
    } else {
        unwrap_rounds(key, unwrap_blocks(key, state, n, (rounds - 1) as nat, n), n, (rounds - 1) as nat)
    }
}

/// The unwrap step of RFC 3394 with counter `t` over `n` blocks: it works on block
/// `((t - 1) mod n) + 1`, decrypting the integrity register xored with `t` followed by
/// that block.
pub open spec fn counter_step(key: Seq<u8>, state: (Seq<u8>, Seq<u8>), n: nat, t: nat) -> (
    Seq<u8>,
    Seq<u8>,
) {
    let (register, blocks) = state;
    let start = 8 * ((t - 1) % (n as int));
    let output = aes128_decrypt(key, xor8(register, be64(t as u64)) + blocks.subrange(start, start + 8));
    (output.subrange(0, 8), blocks.subrange(0, start) + output.subrange(8, 16) + blocks.skip(start + 8))
}

/// The unwrap steps with counters `t`, `t - 1`, .. down to `stop + 1`, in that order.
pub open spec fn counter_unwrap(key: Seq<u8>, state: (Seq<u8>, Seq<u8>), n: nat, t: nat, stop: nat) -> (
    Seq<u8>,
    Seq<u8>,
)
    decreases t,
{
    if t <= stop {
        state
    } else {
        counter_unwrap(key, counter_step(key, state, n, t), n, (t - 1) as nat, stop)
    }
}

/// Running the steps down to `middle` and then on down to `stop` is running them down to
/// `stop`.
proof fn lemma_counter_unwrap_split(
    key: Seq<u8>,
    state: (Seq<u8>, Seq<u8>),
    n: nat,
    t: nat,
    middle: nat,
    stop: nat,
)
    requires
        stop <= middle <= t,
    ensures
        counter_unwrap(key, counter_unwrap(key, state, n, t, middle), n, middle, stop)
            == counter_unwrap(key, state, n, t, stop),
    decreases t,
{
    if t > middle {
        lemma_counter_unwrap_split(key, counter_step(key, state, n, t), n, (t - 1) as nat, middle, stop);
    }
}

/// Round `j` from block `i` down is the steps with counters `n * j + i` down to `n * j + 1`.
proof fn lemma_blocks_are_counter_steps(key: Seq<u8>, state: (Seq<u8>, Seq<u8>), n: nat, j: nat, i: nat)
    requires
        i <= n,
    ensures
        unwrap_blocks(key, state, n, j, i) == counter_unwrap(key, state, n, n * j + i, n * j),
    decreases i,
{
    reveal(unwrap_blocks);
    if i > 0 {
        let t: nat = n * j + i;
        assert((t - 1) % (n as int) == i - 1) by (nonlinear_arith)
            requires
                t == n * j + i,
                1 <= i <= n,
        ;
        assert(counter_step(key, state, n, t) == unwrap_step(key, state, n, j, i));
        lemma_blocks_are_counter_steps(key, unwrap_step(key, state, n, j, i), n, j, (i - 1) as nat);
        assert(n * j + (i - 1) == t - 1);
    }
}

/// The first `rounds` rounds, from the last one down, are the steps with counters
/// `n * rounds` down to 1.
proof fn lemma_rounds_are_counter_steps(key: Seq<u8>, state: (Seq<u8>, Seq<u8>), n: nat, rounds: nat)
    ensures
        unwrap_rounds(key, state, n, rounds) == counter_unwrap(key, state, n, n * rounds, 0),
    decreases rounds,
{
    reveal(unwrap_rounds);
    if rounds > 0 {
        let r = (rounds - 1) as nat;
        assert(n * rounds == n * r + n) by (nonlinear_arith)
            requires
                r == rounds - 1,
        ;
        lemma_blocks_are_counter_steps(key, state, n, r, n);
        let after = unwrap_blocks(key, state, n, r, n);
        lemma_rounds_are_counter_steps(key, after, n, r);
        lemma_counter_unwrap_split(key, state, n, n * rounds, n * r, 0);
        assert(after == counter_unwrap(key, state, n, n * rounds, n * r));
        assert(unwrap_rounds(key, state, n, rounds) == unwrap_rounds(key, after, n, r));
    } else {
        assert(n * rounds == 0) by (nonlinear_arith)
            requires
                rounds == 0,
        ;
    }
}

/// The unwrap of `encrypted` (RFC 3394, 2.2.2) is its `6n` steps with the counters `6n`,
/// `6n - 1`, .. down to 1, where `n` is the number of 64-bit plaintext blocks, the step
/// with counter `t` working on block `((t - 1) mod n) + 1`.
pub proof fn lemma_key_unwrap_counts_down(key: Seq<u8>, encrypted: Seq<u8>)
    requires
        encrypted.len() >= 16,
        encrypted.len() % 8 == 0,
    ensures
        spec_key_unwrap(key, encrypted) == counter_unwrap(
            key,
            (encrypted.take(8), encrypted.skip(8)),
            ((encrypted.len() - 8) / 8) as nat,
            6 * (((encrypted.len() - 8) / 8) as nat),
            0,
        ),
{
    let n = ((encrypted.len() - 8) / 8) as nat;
    lemma_rounds_are_counter_steps(key, (encrypted.take(8), encrypted.skip(8)), n, 6);
    assert(n * 6 == 6 * n);
}

/// The integrity register and the plaintext after the six unwrap rounds of `encrypted`.
pub open spec fn spec_key_unwrap(key: Seq<u8>, encrypted: Seq<u8>) -> (Seq<u8>, Seq<u8>) {
    let n = ((encrypted.len() - 8) / 8) as nat;
    unwrap_rounds(key, (encrypted.take(8), encrypted.skip(8)), n, 6)
}

/// The outcome of unwrapping `encrypted` into storage of `available` bytes: the plaintext
/// length, or why it failed.
pub open spec fn spec_unwrap_outcome(key: Seq<u8>, encrypted: Seq<u8>, available: nat) -> Result<
    usize,
    KeyDataUnwrapError,
> {
    if encrypted.len() < 16 || encrypted.len() % 8 != 0 {
        Err(KeyDataUnwrapError::InvalidEncryptedLength { actual: encrypted.len() as usize })
    } else if available < encrypted.len() - 8 {
        Err(
            KeyDataUnwrapError::OutputTooShort {
                required: (encrypted.len() - 8) as usize,
                available: available as usize,
            },
        )
    } else if spec_key_unwrap(key, encrypted).0 != key_wrap_initial_value() {
        Err(KeyDataUnwrapError::IntegrityMismatch)
    } else {
        Ok((encrypted.len() - 8) as usize)
    }
}

/// Unwraps AES-wrapped EAPOL-Key data with the key encryption key into the front of
/// `output` and returns the plaintext length. When the integrity check fails, the
/// plaintext bytes of `output` are cleared.
pub fn unwrap_wpa2_key_data(
    output: &mut [u8],
    encrypted: &[u8],
    key_encryption_key: &[u8; 16],
) -> (result: Result<usize, KeyDataUnwrapError>)
    ensures
        result == spec_unwrap_outcome(key_encryption_key@, encrypted@, old(output)@.len()),
        final(output)@.len() == old(output)@.len(),
        result matches Ok(length) ==> final(output)@ == spec_key_unwrap(
            key_encryption_key@,
            encrypted@,
        ).1 + old(output)@.skip(length as int),
        result == Err::<usize, KeyDataUnwrapError>(KeyDataUnwrapError::IntegrityMismatch)
            ==> final(output)@ == zeros((encrypted@.len() - 8) as nat) + old(output)@.skip(
            encrypted@.len() - 8,
        ),
        result matches Err(error) && !(error is IntegrityMismatch) ==> final(output)@ == old(
            output,
        )@,
{
    if encrypted.len() < 16 || encrypted.len() % 8 != 0 {
        return Err(KeyDataUnwrapError::InvalidEncryptedLength { actual: encrypted.len() });
    }
    let plain_length = encrypted.len() - 8;
    if output.len() < plain_length {
        return Err(KeyDataUnwrapError::OutputTooShort { required: plain_length, available: output.len() });
    }
    let ghost key = key_encryption_key@;
    let ghost original = output@;
    let ghost n: nat = (plain_length / 8) as nat;
    let blocks = plain_length / 8;
    assert(8 * n == plain_length);
    assert(n >= 1 && 6 * n <= usize::MAX) by (nonlinear_arith)
        requires
            8 * n == plain_length,
            plain_length >= 8,
            plain_length <= usize::MAX,
    ;
    let mut integrity = array8_from(encrypted);
    let (plain, rest) = output.split_at_mut(plain_length);
    let ghost rest_bytes = rest@;
    copy_tail(plain, encrypted);
    assert(plain@ =~= encrypted@.skip(8));
    assert(integrity@ =~= encrypted@.take(8));
    let mut round: usize = 6;
    while round > 0
        invariant
            round <= 6,
            key == key_encryption_key@,
            blocks == n,
            8 * n == plain_length,
            n >= 1,
            6 * n <= usize::MAX,
            plain@.len() == plain_length,
            integrity@.len() == 8,
            unwrap_rounds(key, (encrypted@.take(8), encrypted@.skip(8)), n, 6) == unwrap_rounds(
                key,
                (integrity@, plain@),
                n,
                round as nat,
            ),
        decreases round,
    {
        let j = round - 1;
        let ghost state = (integrity@, plain@);
        assert(unwrap_rounds(key, state, n, round as nat) == unwrap_rounds(
            key,
            unwrap_blocks(key, state, n, j as nat, n),
            n,
            j as nat,
        )) by {
            reveal(unwrap_rounds);
        }
        unwrap_one_round(key_encryption_key, &mut integrity, plain, blocks, j);
        round = round - 1;
    }
    let ghost unwrapped = spec_key_unwrap(key, encrypted@);
    assert(unwrapped == (integrity@, plain@)) by {
        reveal(unwrap_rounds);
    }
    let mut difference: u8 = 0;
    let mut k: usize = 0;
    while k < 8
        invariant
            k <= 8,
            integrity@.len() == 8,
            (difference == 0) == (forall|m: int| 0 <= m < k ==> integrity@[m] == 0xa6u8),
        decreases 8 - k,
    {
        proof {
            lemma_or_xor_zero(difference, integrity@[k as int], 0xa6u8);
        }
        difference = difference | (integrity[k] ^ 0xa6);
        k = k + 1;
    }
    if difference != 0 {
        assert(integrity@ != key_wrap_initial_value()) by {
            if integrity@ == key_wrap_initial_value() {
                assert(forall|m: int| 0 <= m < 8 ==> integrity@[m] == 0xa6u8);
            }
        }
        zeroize_bytes(&mut integrity);
        zeroize_bytes(plain);
        assert(output@ =~= zeros(plain_length as nat) + original.skip(plain_length as int));
        return Err(KeyDataUnwrapError::IntegrityMismatch);
    }
    assert(integrity@ =~= key_wrap_initial_value());
    zeroize_bytes(&mut integrity);
    assert(output@ =~= unwrapped.1 + original.skip(plain_length as int));
    Ok(plain_length)
}



/// Performs round `j` of an `n`-block unwrap, blocks `n` down to one.
fn unwrap_one_round(key: &[u8; 16], integrity: &mut [u8; 8], plain: &mut [u8], n: usize, j: usize)
    requires
        1 <= n,
        j < 6,
        6 * n <= usize::MAX,
        old(plain)@.len() == 8 * n,
    ensures
        final(integrity)@.len() == 8,
        final(plain)@.len() == old(plain)@.len(),
        (final(integrity)@, final(plain)@) == unwrap_blocks(
            key@,
            (old(integrity)@, old(plain)@),
            n as nat,
            j as nat,
            n as nat,
        ),
{
    let ghost goal = unwrap_blocks(key@, (integrity@, plain@), n as nat, j as nat, n as nat);
    let mut block_index: usize = n;
    while block_index > 0
        invariant
            block_index <= n,
            j < 6,
            6 * n <= usize::MAX,
            plain@.len() == 8 * n,
            integrity@.len() == 8,
            goal == unwrap_blocks(key@, (integrity@, plain@), n as nat, j as nat, block_index as nat),
        decreases block_index,
    {
        let ghost state = (integrity@, plain@);
        unwrap_one_block(key, integrity, plain, n, j, block_index);
        assert(unwrap_blocks(key@, state, n as nat, j as nat, block_index as nat) == unwrap_blocks(
            key@,
            (integrity@, plain@),
            n as nat,
            j as nat,
            (block_index - 1) as nat,
        )) by {
            reveal(unwrap_blocks);
        }
        block_index = block_index - 1;
    }
    assert(unwrap_blocks(key@, (integrity@, plain@), n as nat, j as nat, 0) == (integrity@, plain@)) by {
        reveal(unwrap_blocks);
    }
}

/// Performs unwrap step `i` of round `j` of an `n`-block unwrap on the integrity register
/// and the plaintext blocks.
fn unwrap_one_block(
    key: &[u8; 16],
    integrity: &mut [u8; 8],
    plain: &mut [u8],
    n: usize,
    j: usize,
    i: usize,
)
    requires
        1 <= i <= n,
        j < 6,
        6 * n <= usize::MAX,
        old(plain)@.len() == 8 * n,
    ensures
        final(integrity)@.len() == 8,
        final(plain)@.len() == old(plain)@.len(),
        (final(integrity)@, final(plain)@) == unwrap_step(
            key@,
            (old(integrity)@, old(plain)@),
            n as nat,
            j as nat,
            i as nat,
        ),
{
    let ghost state = (integrity@, plain@);
    let total = plain.len();
    assert(n * j + i <= 6 * n) by (nonlinear_arith)
        requires
            j < 6,
            i <= n,
    ;
    let counter = (n * j + i) as u64;
    assert(8 * (i - 1) + 8 <= 8 * n) by (nonlinear_arith)
        requires
            1 <= i <= n,
    ;
    let start = (i - 1) * 8;
    let counter_bytes = be64_bytes(counter);
    let mut input = [0u8; 16];
    let mut k: usize = 0;
    while k < 8
        invariant
            k <= 8,
            input@.len() == 16,
            forall|m: int| 0 <= m < k ==> input@[m] == integrity@[m] ^ counter_bytes@[m],
        decreases 8 - k,
    {
        input[k] = integrity[k] ^ counter_bytes[k];
        k = k + 1;
    }
    let mut k: usize = 0;
    while k < 8
        invariant
            k <= 8,
            start + 8 <= plain@.len(),
            input@.len() == 16,
            forall|m: int| 0 <= m < 8 ==> input@[m] == integrity@[m] ^ counter_bytes@[m],
            forall|m: int| 8 <= m < 8 + k ==> #[trigger] input@[m] == plain@[start + m - 8],
        decreases 8 - k,
    {
        input[8 + k] = plain[start + k];
        k = k + 1;
    }
    assert(input@ =~= xor8(integrity@, be64((n * j + i) as u64)) + plain@.subrange(
        start as int,
        start + 8,
    ));
    let mut decrypted = aes128_decrypt_block(key, &input);
    zeroize_bytes(&mut input);
    let mut k: usize = 0;
    while k < 8
        invariant
            k <= 8,
            start + 8 <= plain@.len(),
            total == plain@.len(),
            plain@.len() == state.1.len(),
            integrity@.len() == 8,
            forall|m: int| 0 <= m < k ==> integrity@[m] == decrypted@[m],
            forall|m: int| start <= m < start + k ==> #[trigger] plain@[m] == decrypted@[m - start + 8],
            forall|m: int|
                0 <= m < plain@.len() && !(start <= m < start + k) ==> plain@[m] == state.1[m],
        decreases 8 - k,
    {
        integrity[k] = decrypted[k];
        plain[start + k] = decrypted[8 + k];
        k = k + 1;
    }
    assert(integrity@ =~= unwrap_step(key@, state, n as nat, j as nat, i as nat).0);
    assert(plain@ =~= unwrap_step(key@, state, n as nat, j as nat, i as nat).1);
    zeroize_bytes(&mut decrypted);
}

/// The first eight bytes of `bytes`.
fn array8_from(bytes: &[u8]) -> (a: [u8; 8])
    requires
        8 <= bytes@.len(),
    ensures
        a@ == bytes@.take(8),
{
    let mut a = [0u8; 8];
    let mut i: usize = 0;
    while i < 8
        invariant
            i <= 8,
            8 <= bytes@.len(),
            a@.len() == 8,
            forall|j: int| 0 <= j < i ==> a@[j] == bytes@[j],
        decreases 8 - i,
    {
        a[i] = bytes[i];
        i = i + 1;
    }
    assert(a@ =~= bytes@.take(8));
    a
}

/// Copies all but the first eight bytes of `bytes` over `output`, which has their length.
fn copy_tail(output: &mut [u8], bytes: &[u8])
    requires
        8 <= bytes@.len(),
        old(output)@.len() == bytes@.len() - 8,
    ensures
        final(output)@ == bytes@.skip(8),
{
    let total = bytes.len();
    let count = total - 8;
    let mut i: usize = 0;
    while i < count
        invariant
            total == bytes@.len(),
            count + 8 == total,
            i <= count,
            count == bytes@.len() - 8,
            output@.len() == bytes@.len() - 8,
            forall|j: int| 0 <= j < i ==> output@[j] == bytes@[j + 8],
        decreases count - i,
    {
        output[i] = bytes[i + 8];
        i = i + 1;
    }
    assert(output@ =~= bytes@.skip(8));
}

/// The big-endian bytes of a counter.
fn be64_bytes(value: u64) -> (bytes: [u8; 8])
    ensures
        bytes@ == be64(value),
{
    let bytes = [
        (value / 0x100_0000_0000_0000) as u8,
        ((value / 0x1_0000_0000_0000) % 256) as u8,
        ((value / 0x100_0000_0000) % 256) as u8,
        ((value / 0x1_0000_0000) % 256) as u8,
        ((value / 0x100_0000) % 256) as u8,
        ((value / 0x1_0000) % 256) as u8,
        ((value / 0x100) % 256) as u8,
        (value % 256) as u8,
    ];
    assert(bytes@ =~= be64(value));
    bytes
}

} // verus!
