//! The Bluetooth patch table of D80 chips: a tag, then sections of (address, value)
//! pairs, and the rules by which the pairs are written to the chip's memory.
use vstd::prelude::*;

use crate::bytes::{int_of, le32_at, nat_of, read_le32, usize_of_nat};

verus! {

/// Tag at the start of a patch table, NUL included.
const PATCH_TABLE_TAG: [u8; 13] = [
    0x41, 0x49, 0x43, 0x42, 0x54, 0x5f, 0x50, 0x54, 0x5f, 0x54, 0x41, 0x47, 0x00,
];

/// The tag occupies a 16-byte prefix.
const PATCH_TABLE_PREFIX_SIZE: usize = 16;

/// A section header: a 16-byte name, the type and the pair count.
const SECTION_HEADER_SIZE: usize = 24;

/// A pair: a little-endian address and value.
const PAIR_SIZE: usize = 8;

/// Section type of the patch information section.
pub const AICBT_PATCH_INFO_TYPE: u32 = 0;

/// Section type of the Bluetooth mode section.
pub const AICBT_PATCH_BTMODE_TYPE: u32 = 3;

/// Section type of the power-on section.
pub const AICBT_PATCH_POWER_ON_TYPE: u32 = 4;

/// Section type of the version section, which is never written.
pub const AICBT_PATCH_VERSION_TYPE: u32 = 6;

/// Pairs of the information section that are written.
const PATCH_INFORMATION_WRITE_PAIR_LIMIT: usize = 4;

/// Wait after the power-on section, in microseconds.
const POWER_ON_DELAY_US: u32 = 500;

/// Settings that override the pairs of the Bluetooth mode section.
#[derive(Clone, Copy, Debug, Eq, PartialEq)]
pub struct D80BtPatchSettings {
    pub hwinfo: i32,
    pub bt_mode: u32,
    pub bt_port: u32,
    pub uart_baud: u32,
    pub uart_flow_control: u32,
    pub low_power_mode: u32,
    pub transmit_power: u32,
}

/// The settings of a D80 whose Bluetooth runs over SDIO.
pub open spec fn spec_d80_sdio_bt_default_patch_settings() -> D80BtPatchSettings {
    D80BtPatchSettings {
        hwinfo: -1i32,
        bt_mode: 5,
        bt_port: 1,
        uart_baud: 1_500_000,
        uart_flow_control: 1,
        low_power_mode: 0,
        transmit_power: 0x0000_6f2f,
    }
}

/// The settings of a D80 whose Bluetooth runs over SDIO.
pub fn d80_sdio_bt_default_patch_settings() -> (settings: D80BtPatchSettings)
    ensures
        settings == spec_d80_sdio_bt_default_patch_settings(),
{
    D80BtPatchSettings {
        hwinfo: -1,
        bt_mode: 5,
        bt_port: 1,
        uart_baud: 1_500_000,
        uart_flow_control: 1,
        low_power_mode: 0,
        transmit_power: 0x0000_6f2f,
    }
}

/// One operation on the chip's memory through the debug interface, as recorded in a
/// memory log, with its answer.
pub enum MemoryOperation {
    WriteWord { address: u32, value: u32, succeeded: bool },
    DelayUs { microseconds: u32 },
    ReadWord { address: u32, value: Option<u32> },
    UploadImage { address: u32, image: Seq<u8>, succeeded: bool },
    StartApp { address: u32, boot_type: u32, status: Option<u32> },
}

/// Word writes to the chip's memory.
///
/// Every method adds the one operation it performed, with its answer, to the memory log.
pub trait AicPatchMemory {
    type Error;

    /// The operations performed so far: a model with no run-time existence, which every
    /// implementation keeps by appending exactly the operation each method performed.
    spec fn memory_log(&self) -> Seq<MemoryOperation>;

    fn write_word(&mut self, address: u32, value: u32) -> (result: Result<(), Self::Error>)
        ensures
            final(self).memory_log() == old(self).memory_log().push(
                MemoryOperation::WriteWord { address, value, succeeded: result is Ok },
            ),
    ;

    fn delay_us(&mut self, microseconds: u32)
        ensures
            final(self).memory_log() == old(self).memory_log().push(
                MemoryOperation::DelayUs { microseconds },
            ),
    ;
}

#[derive(Clone, Copy, Debug, Eq, PartialEq)]
pub enum AicPatchApplyError<E> {
    Write { section_type: u32, pair_index: usize, source: E },
}

#[derive(Clone, Copy, Debug, Eq, PartialEq, Structural)]
pub enum AicPatchTableError {
    TruncatedTag { required: usize, available: usize },
    InvalidTag,
    TruncatedSectionHeader { offset: usize, available: usize },
    TruncatedSectionData { offset: usize, required: usize, available: usize },
    LengthOverflow { offset: usize },
    MissingInformationSection,
    UnexpectedInformationType { actual: u32 },
    MissingInformationPairs { required: usize, available: usize },
    MissingExtensionPairs { declared: u32, available: usize },
}

// ---------------------------------------------------------------------------
// The layout.
// ---------------------------------------------------------------------------

/// The tag bytes, as a sequence.
pub open spec fn patch_table_tag() -> Seq<u8> {
    seq![0x41u8, 0x49, 0x43, 0x42, 0x54, 0x5f, 0x50, 0x54, 0x5f, 0x54, 0x41, 0x47, 0x00]
}

/// The pairs that the section at the start of `s` carries: none for a type of 1000 or
/// more, else its declared count.
pub open spec fn section_pair_count(s: Seq<u8>) -> nat {
    if le32_at(s, 16) >= 1000 {
        0
    } else {
        le32_at(s, 20) as nat
    }
}

/// The length of the section at the start of `s`: its header and its pairs.
pub open spec fn section_length(s: Seq<u8>) -> nat {
    24 + 8 * section_pair_count(s)
}

/// Whether `s` is a run of complete sections whose lengths fit in a `usize`.
pub open spec fn sections_well_formed(s: Seq<u8>) -> bool
    decreases s.len(),
{
    if s.len() == 0 {
        true
    } else {
        &&& s.len() >= 24
        &&& section_length(s) <= usize::MAX
        &&& section_length(s) <= s.len()
        &&& sections_well_formed(s.skip(section_length(s) as int))
    }
}

/// What a section holds, as plain values.
pub struct PatchSectionView {
    pub name: Seq<u8>,
    pub section_type: u32,
    pub pair_count: nat,
    pub pair_bytes: Seq<u8>,
}

/// The section at the start of `s`.
pub open spec fn section_at(s: Seq<u8>) -> PatchSectionView {
    PatchSectionView {
        name: s.subrange(0, 16),
        section_type: le32_at(s, 16),
        pair_count: section_pair_count(s),
        pair_bytes: s.subrange(24, section_length(s) as int),
    }
}

/// The sections of a run of sections, in order.
pub open spec fn sections_of(s: Seq<u8>) -> Seq<PatchSectionView>
    decreases s.len(),
{
    if s.len() < 24 || section_length(s) > s.len() {
        Seq::empty()
    } else {
        seq![section_at(s)] + sections_of(s.skip(section_length(s) as int))
    }
}

/// The (address, value) pairs stored in `bytes`, eight bytes each; a shorter tail is
/// ignored.
pub open spec fn pairs_of(bytes: Seq<u8>) -> Seq<(u32, u32)> {
    Seq::new(bytes.len() / 8, |i: int| (le32_at(bytes, 8 * i), le32_at(bytes, 8 * i + 4)))
}

/// Why the run of sections `s`, found at `offset` of the table, is malformed, if it is:
/// each section needs its header and its pairs, and their length must fit a `usize`.
pub open spec fn section_walk_error(s: Seq<u8>, offset: nat) -> Option<AicPatchTableError>
    decreases s.len(),
{
    if s.len() == 0 {
        None
    } else if s.len() < 24 {
        Some(
            AicPatchTableError::TruncatedSectionHeader {
                offset: offset as usize,
                available: s.len() as usize,
            },
        )
    } else if 8 * section_pair_count(s) > usize::MAX || section_length(s) > usize::MAX {
        Some(AicPatchTableError::LengthOverflow { offset: offset as usize })
    } else if s.len() < section_length(s) {
        Some(
            AicPatchTableError::TruncatedSectionData {
                offset: offset as usize,
                required: section_length(s) as usize,
                available: s.len() as usize,
            },
        )
    } else {
        section_walk_error(s.skip(section_length(s) as int), offset + section_length(s))
    }
}

/// Why `bytes` is not a patch table, if it is not: the tag, a 16-byte prefix, then
/// well-formed sections up to the end.
pub open spec fn patch_table_error(bytes: Seq<u8>) -> Option<AicPatchTableError> {
    if bytes.len() < 13 {
        Some(AicPatchTableError::TruncatedTag { required: 13, available: bytes.len() as usize })
    } else if bytes.take(13) != patch_table_tag() {
        Some(AicPatchTableError::InvalidTag)
    } else if bytes.len() < 16 {
        Some(AicPatchTableError::TruncatedTag { required: 16, available: bytes.len() as usize })
    } else {
        section_walk_error(bytes.skip(16), 16)
    }
}

/// The sections of a patch table.
pub open spec fn table_sections(bytes: Seq<u8>) -> Seq<PatchSectionView> {
    sections_of(bytes.skip(16))
}

/// A run of sections without an error at any offset is well formed.
pub proof fn lemma_walk_accepts_well_formed(s: Seq<u8>, offset: nat)
    requires
        section_walk_error(s, offset) is None,
    ensures
        sections_well_formed(s),
    decreases s.len(),
{
    if s.len() > 0 {
        lemma_walk_accepts_well_formed(s.skip(section_length(s) as int), offset + section_length(s));
    }
}

// ---------------------------------------------------------------------------
// Tables, sections and pairs.
// ---------------------------------------------------------------------------

/// A validated patch table, borrowing its bytes.
#[derive(Clone, Copy, Debug, Eq, PartialEq)]
pub struct AicPatchTable<'a> {
    bytes: &'a [u8],
}

impl<'a> AicPatchTable<'a> {
    #[verifier::type_invariant]
    spec fn accepted(self) -> bool {
        patch_table_error(self.bytes@) is None
    }

    /// The bytes of the table.
    pub closed spec fn spec_bytes(self) -> Seq<u8> {
        self.bytes@
    }

    /// The sections of the table, from the first.
    pub fn sections(&self) -> (sections: AicPatchSections<'a>)
        ensures
            sections@ == table_sections(self.spec_bytes()),
            patch_table_error(self.spec_bytes()) is None,
            sections_well_formed(self.spec_bytes().skip(16)),
    {
        proof {
            use_type_invariant(self);
            lemma_walk_accepts_well_formed(self.bytes@.skip(16), 16);
        }
        let remaining = &self.bytes[PATCH_TABLE_PREFIX_SIZE..self.bytes.len()];
        assert(remaining@ =~= self.bytes@.skip(16));
        AicPatchSections { remaining }
    }
}

/// One section of a patch table.
#[derive(Clone, Copy, Debug, Eq, PartialEq)]
pub struct AicPatchSection<'a> {
    name: &'a [u8],
    section_type: u32,
    pair_count: usize,
    pair_bytes: &'a [u8],
}

impl<'a> View for AicPatchSection<'a> {
    type V = PatchSectionView;

    closed spec fn view(&self) -> PatchSectionView {
        PatchSectionView {
            name: self.name@,
            section_type: self.section_type,
            pair_count: self.pair_count as nat,
            pair_bytes: self.pair_bytes@,
        }
    }
}

impl<'a> AicPatchSection<'a> {
    /// The 16-byte name of the section.
    pub fn name(&self) -> (name: &'a [u8])
        ensures
            name@ == self@.name,
    {
        self.name
    }

    pub fn section_type(&self) -> (section_type: u32)
        ensures
            section_type == self@.section_type,
    {
        self.section_type
    }

    /// The pairs the section carries.
    pub fn pair_count(&self) -> (count: usize)
        ensures
            count == self@.pair_count,
    {
        self.pair_count
    }

    /// The pairs of the section, from the first.
    pub fn pairs(&self) -> (pairs: AicPatchPairs<'a>)
        ensures
            pairs@ == pairs_of(self@.pair_bytes),
    {
        AicPatchPairs { remaining: self.pair_bytes }
    }

    /// The pair at `index`, if the section stores one there.
    pub fn pair(&self, index: usize) -> (pair: Option<(u32, u32)>)
        ensures
            pair == (if 8 * index + 8 <= self@.pair_bytes.len() {
                Some((le32_at(self@.pair_bytes, 8 * index), le32_at(self@.pair_bytes, 8 * index + 4)))
            } else {
                None
            }),
    {
        let length = self.pair_bytes.len();
        if index >= length / PAIR_SIZE {
            assert(8 * index + 8 > length) by (nonlinear_arith)
                requires
                    index >= length / 8,
            ;
            return None;
        }
        assert(8 * index + 8 <= length) by (nonlinear_arith)
            requires
                index < length / 8,
        ;
        let start = index * PAIR_SIZE;
        Some((read_le32(self.pair_bytes, start), read_le32(self.pair_bytes, start + 4)))
    }
}

/// The sections of a patch table not yet visited.
pub struct AicPatchSections<'a> {
    remaining: &'a [u8],
}

impl<'a> View for AicPatchSections<'a> {
    type V = Seq<PatchSectionView>;

    closed spec fn view(&self) -> Seq<PatchSectionView> {
        sections_of(self.remaining@)
    }
}

impl<'a> AicPatchSections<'a> {
    #[verifier::type_invariant]
    spec fn well_formed(self) -> bool {
        sections_well_formed(self.remaining@)
    }

    /// The next section, if any is left.
    pub fn next(&mut self) -> (section: Option<AicPatchSection<'a>>)
        ensures
            old(self)@.len() == 0 ==> section is None && final(self)@ == old(self)@,
            old(self)@.len() > 0 ==> (section matches Some(s) && s@ == old(self)@[0] && final(self)@
                == old(self)@.drop_first()),
    {
        proof {
            use_type_invariant(&*self);
        }
        let remaining = self.remaining;
        if remaining.len() == 0 {
            return None;
        }
        let ghost s = remaining@;
        let section_type = read_le32(remaining, 16);
        let declared_pair_count = read_le32(remaining, 20);
        let pair_count: usize = if section_type >= 1000 {
            0
        } else {
            declared_pair_count as usize
        };
        assert(pair_count == section_pair_count(s));
        let pair_bytes_end = SECTION_HEADER_SIZE + pair_count * PAIR_SIZE;
        let name = &remaining[0..16];
        let pair_bytes = &remaining[SECTION_HEADER_SIZE..pair_bytes_end];
        let following = &remaining[pair_bytes_end..remaining.len()];
        assert(following@ =~= s.skip(section_length(s) as int));
        self.remaining = following;
        let section = AicPatchSection { name, section_type, pair_count, pair_bytes };
        assert(sections_of(s) == seq![section_at(s)] + sections_of(following@));
        assert((seq![section_at(s)] + sections_of(following@)).drop_first() =~= sections_of(
            following@,
        ));
        Some(section)
    }
}

/// The pairs of a section not yet visited.
pub struct AicPatchPairs<'a> {
    remaining: &'a [u8],
}

impl<'a> View for AicPatchPairs<'a> {
    type V = Seq<(u32, u32)>;

    closed spec fn view(&self) -> Seq<(u32, u32)> {
        pairs_of(self.remaining@)
    }
}

impl<'a> AicPatchPairs<'a> {
    /// The next pair, if eight more bytes are left.
    pub fn next(&mut self) -> (pair: Option<(u32, u32)>)
        ensures
            old(self)@.len() == 0 ==> pair is None && final(self)@ == old(self)@,
            old(self)@.len() > 0 ==> pair == Some(old(self)@[0]) && final(self)@ == old(self)@.drop_first(),
    {
        let remaining = self.remaining;
        if remaining.len() < PAIR_SIZE {
            return None;
        }
        let pair = (read_le32(remaining, 0), read_le32(remaining, 4));
        let following = &remaining[PAIR_SIZE..remaining.len()];
        assert(pairs_of(following@) =~= pairs_of(remaining@).drop_first());
        self.remaining = following;
        Some(pair)
    }

    /// The pairs not yet visited, in order.
    pub fn to_vec(self) -> (pairs: Vec<(u32, u32)>)
        ensures
            pairs@ == self@,
    {
        let mut rest = self;
        let ghost all = rest@;
        let mut pairs: Vec<(u32, u32)> = Vec::new();
        loop
            invariant
                all == self@,
                all == pairs@ + rest@,
            decreases rest@.len(),
        {
            let ghost before = rest@;
            match rest.next() {
                Some(pair) => {
                    pairs.push(pair);
                    assert(all =~= pairs@ + rest@) by {
                        assert(before =~= seq![pair] + before.drop_first());
                    }
                },
                None => {
                    assert(all =~= pairs@);
                    return pairs;
                },
            }
        }
    }
}

// ---------------------------------------------------------------------------
// Parsing.
// ---------------------------------------------------------------------------

/// Checks a patch table: its tag, its 16-byte prefix and every section up to the end.
pub fn parse_patch_table(bytes: &[u8]) -> (result: Result<AicPatchTable<'_>, AicPatchTableError>)
    ensures
        match result {
            Ok(table) => patch_table_error(bytes@) is None && table.spec_bytes() == bytes@,
            Err(error) => patch_table_error(bytes@) == Some(error),
        },
{
    if bytes.len() < 13 {
        return Err(AicPatchTableError::TruncatedTag { required: 13, available: bytes.len() });
    }
    let tag = PATCH_TABLE_TAG;
    assert(tag@ =~= patch_table_tag());
    let mut i: usize = 0;
    while i < 13
        invariant
            i <= 13,
            13 <= bytes@.len(),
            tag@ == patch_table_tag(),
            forall|j: int| 0 <= j < i ==> bytes@[j] == tag@[j],
        decreases 13 - i,
    {
        if bytes[i] != tag[i] {
            assert(bytes@.take(13)[i as int] != patch_table_tag()[i as int]);
            return Err(AicPatchTableError::InvalidTag);
        }
        i = i + 1;
    }
    assert(bytes@.take(13) =~= patch_table_tag());
    if bytes.len() < PATCH_TABLE_PREFIX_SIZE {
        return Err(AicPatchTableError::TruncatedTag { required: 16, available: bytes.len() });
    }
    let ghost whole = patch_table_error(bytes@);
    let mut offset: usize = PATCH_TABLE_PREFIX_SIZE;
    while offset < bytes.len()
        invariant
            16 <= offset <= bytes@.len(),
            bytes@.len() == bytes.len(),
            whole == patch_table_error(bytes@),
            whole == section_walk_error(bytes@.skip(int_of(offset)), nat_of(offset)),
        decreases bytes@.len() - offset,
    {
        let ghost s = bytes@.skip(int_of(offset));
        let available = bytes.len() - offset;
        if available < SECTION_HEADER_SIZE {
            return Err(AicPatchTableError::TruncatedSectionHeader { offset, available });
        }
        let section_type = read_le32(bytes, offset + 16);
        let declared_pair_count = read_le32(bytes, offset + 20);
        assert(section_type == le32_at(s, 16) && declared_pair_count == le32_at(s, 20));
        let pair_count: usize = if section_type >= 1000 {
            0
        } else {
            declared_pair_count as usize
        };
        let pair_bytes_length = match pair_count.checked_mul(PAIR_SIZE) {
            Some(length) => length,
            None => return Err(AicPatchTableError::LengthOverflow { offset }),
        };
        let required = match SECTION_HEADER_SIZE.checked_add(pair_bytes_length) {
            Some(required) => required,
            None => return Err(AicPatchTableError::LengthOverflow { offset }),
        };
        if available < required {
            return Err(AicPatchTableError::TruncatedSectionData { offset, required, available });
        }
        assert(bytes@.skip(offset + required) =~= s.skip(required as int));
        offset = offset + required;
    }
    assert(bytes@.skip(int_of(offset)).len() == 0);
    Ok(AicPatchTable { bytes })
}

/// The patch information section read as plain values.
pub struct D80PatchInfoView {
    pub adid_address_info: u32,
    pub adid_address: u32,
    pub patch_address_info: u32,
    pub patch_address: u32,
    pub reset_address: u32,
    pub reset_value: u32,
    pub adid_flag_address: u32,
    pub adid_flag_value: u32,
    pub ext_patch_count_address: u32,
    pub ext_patch_count: u32,
    pub ext_patches: Seq<(u32, u32)>,
}

/// The addresses the D80 Bluetooth images go to, read from the patch information section.
#[derive(Clone, Copy, Debug, Eq, PartialEq)]
pub struct AicD80PatchInfo<'a> {
    pub adid_address_info: u32,
    pub adid_address: u32,
    pub patch_address_info: u32,
    pub patch_address: u32,
    pub reset_address: u32,
    pub reset_value: u32,
    pub adid_flag_address: u32,
    pub adid_flag_value: u32,
    pub ext_patch_count_address: u32,
    pub ext_patch_count: u32,
    pub ext_patch_bytes: &'a [u8],
}

impl<'a> View for AicD80PatchInfo<'a> {
    type V = D80PatchInfoView;

    open spec fn view(&self) -> D80PatchInfoView {
        D80PatchInfoView {
            adid_address_info: self.adid_address_info,
            adid_address: self.adid_address,
            patch_address_info: self.patch_address_info,
            patch_address: self.patch_address,
            reset_address: self.reset_address,
            reset_value: self.reset_value,
            adid_flag_address: self.adid_flag_address,
            adid_flag_value: self.adid_flag_value,
            ext_patch_count_address: self.ext_patch_count_address,
            ext_patch_count: self.ext_patch_count,
            ext_patches: pairs_of(self.ext_patch_bytes@),
        }
    }
}

impl<'a> AicD80PatchInfo<'a> {
    /// Every public field is the field of the same name of the view.
    pub proof fn lemma_fields(self)
        ensures
            self.adid_address_info == self@.adid_address_info,
            self.adid_address == self@.adid_address,
            self.patch_address_info == self@.patch_address_info,
            self.patch_address == self@.patch_address,
            self.reset_address == self@.reset_address,
            self.reset_value == self@.reset_value,
            self.adid_flag_address == self@.adid_flag_address,
            self.adid_flag_value == self@.adid_flag_value,
            self.ext_patch_count_address == self@.ext_patch_count_address,
    {
    }

    /// The number of extension patches the chip expects.
    pub fn ext_patch_count(&self) -> (count: u32)
        ensures
            count == self@.ext_patch_count,
    {
        self.ext_patch_count
    }

    /// The (identifier, address) pairs of the extension patches.
    pub fn ext_patches(&self) -> (pairs: AicPatchPairs<'a>)
        ensures
            pairs@ == self@.ext_patches,
    {
        AicPatchPairs { remaining: self.ext_patch_bytes }
    }
}

/// The patch information in the first section, or why it is missing: the section must
/// have the information type, five base pairs and as many extension pairs as its fifth
/// pair declares. The extension pairs are the ones after the base pairs.
pub open spec fn spec_parse_d80_patch_info(sections: Seq<PatchSectionView>) -> Result<
    D80PatchInfoView,
    AicPatchTableError,
> {
    if sections.len() == 0 {
        Err(AicPatchTableError::MissingInformationSection)
    } else {
        let section = sections[0];
        let p = section.pair_bytes;
        if section.section_type != AICBT_PATCH_INFO_TYPE {
            Err(AicPatchTableError::UnexpectedInformationType { actual: section.section_type })
        } else if section.pair_count < 5 {
            Err(
                AicPatchTableError::MissingInformationPairs {
                    required: 5,
                    available: usize_of_nat(section.pair_count),
                },
            )
        } else if section.pair_count - 5 < le32_at(p, 36) {
            Err(
                AicPatchTableError::MissingExtensionPairs {
                    declared: le32_at(p, 36),
                    available: (section.pair_count - 5) as usize,
                },
            )
        } else {
            Ok(
                D80PatchInfoView {
                    adid_address_info: le32_at(p, 0),
                    adid_address: le32_at(p, 4),
                    patch_address_info: le32_at(p, 8),
                    patch_address: le32_at(p, 12),
                    reset_address: le32_at(p, 16),
                    reset_value: le32_at(p, 20),
                    adid_flag_address: le32_at(p, 24),
                    adid_flag_value: le32_at(p, 28),
                    ext_patch_count_address: le32_at(p, 32),
                    ext_patch_count: le32_at(p, 36),
                    ext_patches: pairs_of(p.subrange(40, 40 + 8 * le32_at(p, 36))),
                },
            )
        }
    }
}

/// Every section of a well-formed run stores eight bytes per pair.
pub proof fn lemma_sections_store_their_pairs(s: Seq<u8>)
    requires
        sections_well_formed(s),
    ensures
        forall|i: int|
            0 <= i < sections_of(s).len() ==> (#[trigger] sections_of(s)[i]).pair_bytes.len() == 8
                * sections_of(s)[i].pair_count,
    decreases s.len(),
{
    if s.len() > 0 {
        let rest = s.skip(section_length(s) as int);
        lemma_sections_store_their_pairs(rest);
        assert forall|i: int|
            0 <= i < sections_of(s).len() implies (#[trigger] sections_of(s)[i]).pair_bytes.len() == 8
                * sections_of(s)[i].pair_count by {
            if i > 0 {
                assert(sections_of(s)[i] == sections_of(rest)[i - 1]);
            }
        }
    }
}

/// Reads the D80 patch information from the first section of a patch table.
pub fn parse_d80_patch_info<'a>(table: &AicPatchTable<'a>) -> (result: Result<
    AicD80PatchInfo<'a>,
    AicPatchTableError,
>)
    ensures
        match result {
            Ok(info) => spec_parse_d80_patch_info(table_sections(table.spec_bytes())) == Ok::<
                D80PatchInfoView,
                AicPatchTableError,
            >(info@)
                && info.adid_address_info == info@.adid_address_info
                && info.adid_address == info@.adid_address
                && info.patch_address_info == info@.patch_address_info
                && info.patch_address == info@.patch_address
                && info.reset_address == info@.reset_address
                && info.reset_value == info@.reset_value
                && info.adid_flag_address == info@.adid_flag_address
                && info.adid_flag_value == info@.adid_flag_value
                && info.ext_patch_count_address == info@.ext_patch_count_address,
            Err(error) => spec_parse_d80_patch_info(table_sections(table.spec_bytes())) == Err::<
                D80PatchInfoView,
                AicPatchTableError,
            >(error),
        },
{
    let mut sections = table.sections();
    proof {
        lemma_sections_store_their_pairs(table.spec_bytes().skip(16));
    }
    let section = match sections.next() {
        Some(section) => section,
        None => return Err(AicPatchTableError::MissingInformationSection),
    };
    let section_type = section.section_type();
    if section_type != AICBT_PATCH_INFO_TYPE {
        return Err(AicPatchTableError::UnexpectedInformationType { actual: section_type });
    }
    let pair_count = section.pair_count();
    if pair_count < 5 {
        return Err(AicPatchTableError::MissingInformationPairs { required: 5, available: pair_count });
    }
    let p = section.pair_bytes;
    assert(p@.len() == 8 * pair_count);
    let ext_patch_count = read_le32(p, 36);
    let available_extensions = pair_count - 5;
    let required_extensions = ext_patch_count as usize;
    if available_extensions < required_extensions {
        return Err(
            AicPatchTableError::MissingExtensionPairs {
                declared: ext_patch_count,
                available: available_extensions,
            },
        );
    }
    let extension_end = 40 + required_extensions * PAIR_SIZE;
    Ok(
        AicD80PatchInfo {
            adid_address_info: read_le32(p, 0),
            adid_address: read_le32(p, 4),
            patch_address_info: read_le32(p, 8),
            patch_address: read_le32(p, 12),
            reset_address: read_le32(p, 16),
            reset_value: read_le32(p, 20),
            adid_flag_address: read_le32(p, 24),
            adid_flag_value: read_le32(p, 28),
            ext_patch_count_address: read_le32(p, 32),
            ext_patch_count,
            ext_patch_bytes: &p[40..extension_end],
        },
    )
}

// ---------------------------------------------------------------------------
// Applying a table.
// ---------------------------------------------------------------------------

/// One step of applying a patch table: the memory operation and the section and pair it
/// comes from.
pub struct PatchStep {
    pub operation: MemoryOperation,
    pub section_type: u32,
    pub pair_index: nat,
}

/// The value written for pair `pair_index` of the Bluetooth mode section: the first nine
/// pairs carry the settings (whether `hwinfo` is negative, `hwinfo` itself, zero, then
/// mode, port, baud rate, flow control, low-power mode and transmit power); later pairs
/// keep the table's value.
pub open spec fn bt_mode_value(pair_index: nat, original_value: u32, settings: D80BtPatchSettings) -> u32 {
    if pair_index == 0 {
        if settings.hwinfo < 0 {
            1
        } else {
            0
        }
    } else if pair_index == 1 {
        settings.hwinfo as u32
    } else if pair_index == 2 {
        0
    } else if pair_index == 3 {
        settings.bt_mode
    } else if pair_index == 4 {
        settings.bt_port
    } else if pair_index == 5 {
        settings.uart_baud
    } else if pair_index == 6 {
        settings.uart_flow_control
    } else if pair_index == 7 {
        settings.low_power_mode
    } else if pair_index == 8 {
        settings.transmit_power
    } else {
        original_value
    }
}

/// The pairs of a section that are written: none of the version section, at most four of
/// the information section, all of any other.
pub open spec fn written_pair_count(section: PatchSectionView) -> nat {
    if section.section_type == AICBT_PATCH_VERSION_TYPE {
        0
    } else if section.section_type == AICBT_PATCH_INFO_TYPE {
        if section.pair_count < 4 {
            section.pair_count
        } else {
            4
        }
    } else {
        section.pair_count
    }
}

/// The steps of one section: a word write per written pair, the Bluetooth mode section's
/// values replaced by the settings, then a 500 µs wait after the power-on section.
pub open spec fn section_steps(section: PatchSectionView, settings: D80BtPatchSettings) -> Seq<
    PatchStep,
> {
    let p = section.pair_bytes;
    Seq::new(
        written_pair_count(section),
        |i: int|
            PatchStep {
                operation: MemoryOperation::WriteWord {
                    address: le32_at(p, 8 * i),
                    value: if section.section_type == AICBT_PATCH_BTMODE_TYPE {
                        bt_mode_value(i as nat, le32_at(p, 8 * i + 4), settings)
                    } else {
                        le32_at(p, 8 * i + 4)
                    },
                    succeeded: true,
                },
                section_type: section.section_type,
                pair_index: i as nat,
            },
    ) + if section.section_type == AICBT_PATCH_POWER_ON_TYPE {
        seq![
            PatchStep {
                operation: MemoryOperation::DelayUs { microseconds: 500 },
                section_type: section.section_type,
                pair_index: 0,
            },
        ]
    } else {
        Seq::empty()
    }
}

/// The steps of applying `sections` in order.
pub open spec fn apply_plan(sections: Seq<PatchSectionView>, settings: D80BtPatchSettings) -> Seq<
    PatchStep,
>
    decreases sections.len(),
{
    if sections.len() == 0 {
        Seq::empty()
    } else {
        section_steps(sections[0], settings) + apply_plan(sections.drop_first(), settings)
    }
}

/// The memory operations of a run of steps.
pub open spec fn step_operations(steps: Seq<PatchStep>) -> Seq<MemoryOperation> {
    steps.map_values(|step: PatchStep| step.operation)
}

/// The same write, refused.
pub open spec fn refused(operation: MemoryOperation) -> MemoryOperation {
    match operation {
        MemoryOperation::WriteWord { address, value, .. } => MemoryOperation::WriteWord {
            address,
            value,
            succeeded: false,
        },
        _ => operation,
    }
}

/// Whether `operations` is what carrying out `plan` up to its first refused write
/// performs: all of it when every write succeeded, else the steps before the refused
/// write and that write.
pub open spec fn steps_executed(
    plan: Seq<PatchStep>,
    operations: Seq<MemoryOperation>,
    succeeded: bool,
) -> bool {
    if succeeded {
        operations == step_operations(plan)
    } else {
        &&& 1 <= operations.len() <= plan.len()
        &&& operations.drop_last() == step_operations(plan.take(operations.len() - 1))
        &&& plan[operations.len() - 1].operation is WriteWord
        &&& operations.last() == refused(plan[operations.len() - 1].operation)
    }
}

/// Whether `after` is `before` with operations appended.
pub open spec fn memory_log_extends(before: Seq<MemoryOperation>, after: Seq<MemoryOperation>) -> bool {
    before.len() <= after.len() && after.take(before.len() as int) == before
}

/// Appending to a log appends to what follows any prefix of it.
proof fn lemma_log_push(log: Seq<MemoryOperation>, start: Seq<MemoryOperation>, operation: MemoryOperation)
    requires
        memory_log_extends(start, log),
    ensures
        memory_log_extends(start, log.push(operation)),
        log.push(operation).skip(start.len() as int) == log.skip(start.len() as int).push(operation),
{
    assert(log.push(operation).take(start.len() as int) =~= log.take(start.len() as int));
    assert(log.push(operation).skip(start.len() as int) =~= log.skip(start.len() as int).push(
        operation,
    ));
}

/// One more step of a plan carried out.
proof fn lemma_step_done(plan: Seq<PatchStep>, done: int)
    requires
        0 <= done < plan.len(),
    ensures
        step_operations(plan.take(done)).push(plan[done].operation) == step_operations(
            plan.take(done + 1),
        ),
{
    assert(step_operations(plan.take(done)).push(plan[done].operation) =~= step_operations(
        plan.take(done + 1),
    ));
}

/// The write at step `done` refused after all earlier steps were carried out.
proof fn lemma_step_refused(plan: Seq<PatchStep>, done: int)
    requires
        0 <= done < plan.len(),
        plan[done].operation is WriteWord,
    ensures
        steps_executed(
            plan,
            step_operations(plan.take(done)).push(refused(plan[done].operation)),
            false,
        ),
{
    let operations = step_operations(plan.take(done)).push(refused(plan[done].operation));
    assert(operations.drop_last() =~= step_operations(plan.take(done)));
}

/// The value written for a pair of the Bluetooth mode section.
fn d80_bt_mode_value(pair_index: usize, original_value: u32, settings: D80BtPatchSettings) -> (value:
    u32)
    ensures
        value == bt_mode_value(pair_index as nat, original_value, settings),
{
    match pair_index {
        0 => if settings.hwinfo < 0 {
            1
        } else {
            0
        },
        1 => settings.hwinfo as u32,
        2 => 0,
        3 => settings.bt_mode,
        4 => settings.bt_port,
        5 => settings.uart_baud,
        6 => settings.uart_flow_control,
        7 => settings.low_power_mode,
        8 => settings.transmit_power,
        _ => original_value,
    }
}

/// Carries out the steps of one section, which stand at `done` in `plan`.
fn apply_section<M: AicPatchMemory>(
    memory: &mut M,
    section: &AicPatchSection<'_>,
    settings: D80BtPatchSettings,
    Ghost(start): Ghost<Seq<MemoryOperation>>,
    Ghost(plan): Ghost<Seq<PatchStep>>,
    Ghost(done): Ghost<int>,
) -> (result: Result<(), AicPatchApplyError<M::Error>>)
    requires
        section@.pair_bytes.len() == 8 * section@.pair_count,
        0 <= done,
        done + section_steps(section@, settings).len() <= plan.len(),
        forall|j: int|
            0 <= j < section_steps(section@, settings).len() ==> plan[done + j] == (#[trigger] section_steps(
                section@,
                settings,
            )[j]),
        memory_log_extends(start, old(memory).memory_log()),
        old(memory).memory_log().skip(start.len() as int) == step_operations(plan.take(done)),
    ensures
        memory_log_extends(start, final(memory).memory_log()),
        result is Ok ==> final(memory).memory_log().skip(start.len() as int) == step_operations(
            plan.take(done + section_steps(section@, settings).len()),
        ),
        result matches Err(AicPatchApplyError::Write { section_type, pair_index, .. }) ==> ({
            let operations = final(memory).memory_log().skip(start.len() as int);
            &&& steps_executed(plan, operations, false)
            &&& section_type == plan[operations.len() - 1].section_type
            &&& pair_index == plan[operations.len() - 1].pair_index
        }),
{
    let ghost steps = section_steps(section@, settings);
    let section_type = section.section_type();
    let pair_count = if section_type == AICBT_PATCH_VERSION_TYPE {
        0
    } else if section_type == AICBT_PATCH_INFO_TYPE {
        if section.pair_count() < PATCH_INFORMATION_WRITE_PAIR_LIMIT {
            section.pair_count()
        } else {
            PATCH_INFORMATION_WRITE_PAIR_LIMIT
        }
    } else {
        section.pair_count()
    };
    assert(pair_count == written_pair_count(section@));
    let mut pair_index: usize = 0;
    while pair_index < pair_count
        invariant
            pair_index <= pair_count,
            pair_count == written_pair_count(section@),
            section_type == section@.section_type,
            steps == section_steps(section@, settings),
            section@.pair_bytes.len() == 8 * section@.pair_count,
            0 <= done,
            done + steps.len() <= plan.len(),
            forall|j: int| 0 <= j < steps.len() ==> plan[done + j] == (#[trigger] steps[j]),
            memory_log_extends(start, memory.memory_log()),
            memory.memory_log().skip(start.len() as int) == step_operations(
                plan.take(done + pair_index),
            ),
        decreases pair_count - pair_index,
    {
        assert(8 * pair_index + 8 <= section@.pair_bytes.len()) by (nonlinear_arith)
            requires
                pair_index < pair_count,
                pair_count <= section@.pair_count,
                section@.pair_bytes.len() == 8 * section@.pair_count,
        ;
        let (address, original_value) = section.pair(pair_index).unwrap();
        let value = if section_type == AICBT_PATCH_BTMODE_TYPE {
            d80_bt_mode_value(pair_index, original_value, settings)
        } else {
            original_value
        };
        let ghost step = steps[pair_index as int];
        assert(plan[done + pair_index] == step);
        let ghost before = memory.memory_log();
        let written = memory.write_word(address, value);
        proof {
            lemma_log_push(before, start, memory.memory_log().last());
        }
        match written {
            Err(source) => {
                proof {
                    lemma_step_refused(plan, done + pair_index);
                }
                return Err(AicPatchApplyError::Write { section_type, pair_index, source });
            },
            Ok(()) => {
                proof {
                    lemma_step_done(plan, done + pair_index);
                }
            },
        }
        pair_index = pair_index + 1;
    }
    if section_type == AICBT_PATCH_POWER_ON_TYPE {
        let ghost before = memory.memory_log();
        memory.delay_us(POWER_ON_DELAY_US);
        proof {
            lemma_log_push(before, start, memory.memory_log().last());
            assert(plan[done + pair_count] == steps[pair_count as int]);
            lemma_step_done(plan, done + pair_count);
        }
    }
    Ok(())
}

/// Writes the pairs of a patch table to the chip's memory, in table order, with the
/// Bluetooth mode section taken from `settings`, stopping at the first refused write.
pub fn apply_d80_bt_patch_table<M: AicPatchMemory>(
    memory: &mut M,
    table: &AicPatchTable<'_>,
    settings: D80BtPatchSettings,
) -> (result: Result<(), AicPatchApplyError<M::Error>>)
    ensures
        memory_log_extends(old(memory).memory_log(), final(memory).memory_log()),
        steps_executed(
            apply_plan(table_sections(table.spec_bytes()), settings),
            final(memory).memory_log().skip(old(memory).memory_log().len() as int),
            result is Ok,
        ),
        result matches Err(AicPatchApplyError::Write { section_type, pair_index, .. }) ==> ({
            let operations = final(memory).memory_log().skip(old(memory).memory_log().len() as int);
            let plan = apply_plan(table_sections(table.spec_bytes()), settings);
            &&& section_type == plan[operations.len() - 1].section_type
            &&& pair_index == plan[operations.len() - 1].pair_index
        }),
{
    let ghost start = memory.memory_log();
    let ghost plan = apply_plan(table_sections(table.spec_bytes()), settings);
    let ghost mut done: int = 0;
    let mut sections = table.sections();
    proof {
        lemma_sections_store_their_pairs(table.spec_bytes().skip(16));
        assert(start.take(start.len() as int) =~= start);
        assert(start.skip(start.len() as int) =~= step_operations(plan.take(0)));
        assert(plan.skip(0) =~= plan);
    }
    loop
        invariant
            start == old(memory).memory_log(),
            plan == apply_plan(table_sections(table.spec_bytes()), settings),
            forall|i: int|
                0 <= i < sections@.len() ==> (#[trigger] sections@[i]).pair_bytes.len() == 8
                    * sections@[i].pair_count,
            0 <= done <= plan.len(),
            plan.skip(done) == apply_plan(sections@, settings),
            memory_log_extends(start, memory.memory_log()),
            memory.memory_log().skip(start.len() as int) == step_operations(plan.take(done)),
        decreases sections@.len(),
    {
        let ghost remaining = sections@;
        let section = match sections.next() {
            Some(section) => section,
            None => {
                assert(plan.take(done) =~= plan);
                return Ok(());
            },
        };
        let ghost steps = section_steps(section@, settings);
        assert(remaining[0] == section@);
        assert(plan.skip(done) == steps + apply_plan(sections@, settings));
        assert forall|j: int| 0 <= j < steps.len() implies plan[done + j] == (#[trigger] steps[j]) by {
            assert(plan.skip(done)[j] == plan[done + j]);
        }
        if let Err(error) = apply_section(
            memory,
            &section,
            settings,
            Ghost(start),
            Ghost(plan),
            Ghost(done),
        ) {
            return Err(error);
        }
        proof {
            assert(plan.skip(done + steps.len()) =~= plan.skip(done).skip(steps.len() as int));
            assert((steps + apply_plan(sections@, settings)).skip(steps.len() as int) =~= apply_plan(
                sections@,
                settings,
            ));
            done = done + steps.len();
        }
    }
}

} // verus!
