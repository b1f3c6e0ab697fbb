use axdriver_aic8800::patch_table::{
    AICBT_PATCH_BTMODE_TYPE, AICBT_PATCH_INFO_TYPE, AicPatchTableError, parse_d80_patch_info,
    parse_patch_table,
};

const PREFIX: &[u8; 16] = b"AICBT_PT_TAG\0\0\0\0";

fn push_section(output: &mut Vec<u8>, section_type: u32, declared: u32, pairs: &[(u32, u32)]) {
    output.extend_from_slice(b"SECTION_NAME\0\0\0\0");
    output.extend_from_slice(&section_type.to_le_bytes());
    output.extend_from_slice(&declared.to_le_bytes());
    for &(address, value) in pairs {
        output.extend_from_slice(&address.to_le_bytes());
        output.extend_from_slice(&value.to_le_bytes());
    }
}

#[test]
fn patch_table_prefix_errors() {
    assert_eq!(
        parse_patch_table(b"AICBT_PT"),
        Err(AicPatchTableError::TruncatedTag {
            required: 13,
            available: 8
        })
    );
    assert_eq!(
        parse_patch_table(b"AICBT_PT_TAG\0\0"),
        Err(AicPatchTableError::TruncatedTag {
            required: 16,
            available: 14
        })
    );
    assert_eq!(
        parse_patch_table(b"AICBT_PT_TAGX\0\0\0"),
        Err(AicPatchTableError::InvalidTag)
    );
    let empty = parse_patch_table(PREFIX).unwrap();
    assert!(empty.sections().next().is_none());
    assert_eq!(
        parse_d80_patch_info(&empty),
        Err(AicPatchTableError::MissingInformationSection)
    );
}

#[test]
fn sections_walk_in_order_and_large_types_carry_no_pairs() {
    let mut bytes = PREFIX.to_vec();
    push_section(&mut bytes, AICBT_PATCH_BTMODE_TYPE, 2, &[(1, 2), (3, 4)]);
    push_section(&mut bytes, 1000, 7, &[]);
    push_section(&mut bytes, 5, 1, &[(5, 6)]);
    let table = parse_patch_table(&bytes).unwrap();
    let mut sections = table.sections();

    let first = sections.next().unwrap();
    assert_eq!(first.section_type(), AICBT_PATCH_BTMODE_TYPE);
    assert_eq!(first.pair_count(), 2);
    assert_eq!(first.pairs().to_vec(), vec![(1, 2), (3, 4)]);
    assert_eq!(first.pair(1), Some((3, 4)));
    assert_eq!(first.pair(2), None);
    assert_eq!(first.pair(usize::MAX), None);

    let second = sections.next().unwrap();
    assert_eq!(second.section_type(), 1000);
    assert_eq!(second.pair_count(), 0);
    assert!(second.pairs().next().is_none());

    let third = sections.next().unwrap();
    assert_eq!(third.pairs().to_vec(), vec![(5, 6)]);
    assert!(sections.next().is_none());
}

#[test]
fn patch_information_section_errors() {
    let mut wrong_type = PREFIX.to_vec();
    push_section(&mut wrong_type, AICBT_PATCH_BTMODE_TYPE, 0, &[]);
    let table = parse_patch_table(&wrong_type).unwrap();
    assert_eq!(
        parse_d80_patch_info(&table),
        Err(AicPatchTableError::UnexpectedInformationType {
            actual: AICBT_PATCH_BTMODE_TYPE
        })
    );

    let mut few_pairs = PREFIX.to_vec();
    push_section(
        &mut few_pairs,
        AICBT_PATCH_INFO_TYPE,
        4,
        &[(1, 1), (2, 2), (3, 3), (4, 4)],
    );
    let table = parse_patch_table(&few_pairs).unwrap();
    assert_eq!(
        parse_d80_patch_info(&table),
        Err(AicPatchTableError::MissingInformationPairs {
            required: 5,
            available: 4
        })
    );

    let mut no_extensions = PREFIX.to_vec();
    push_section(
        &mut no_extensions,
        AICBT_PATCH_INFO_TYPE,
        5,
        &[(1, 1), (2, 2), (3, 3), (4, 4), (5, 0)],
    );
    let table = parse_patch_table(&no_extensions).unwrap();
    let info = parse_d80_patch_info(&table).unwrap();
    assert_eq!(info.ext_patch_count(), 0);
    assert!(info.ext_patches().to_vec().is_empty());
}
