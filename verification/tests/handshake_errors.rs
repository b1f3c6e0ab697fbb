use axdriver_aic8800::data::EapolDecodeError;
use axdriver_aic8800::eapol::{
    EapolKeyBuildError, EapolKeyDataDecodeError, EapolKeyDecodeError,
    build_wpa2_psk_ccmp_message_2, build_wpa2_psk_ccmp_message_4, parse_wpa2_psk_ccmp_key_data,
    parse_wpa2_psk_ccmp_message_1, parse_wpa2_psk_ccmp_message_3,
};
use axdriver_aic8800::wpa_crypto::{
    Wpa2CcmpPairwiseTransientKey, derive_wpa2_ccmp_ptk, derive_wpa2_psk,
};
use hmac::{Hmac, Mac};
use sha1::Sha1;

const NONCE: [u8; 32] = [0x42; 32];

/// An EAPOL-Key frame with the given key information, key length, replay counter, nonce and
/// key data, and a zero MIC.
fn key_frame(
    key_information: u16,
    key_length: u16,
    replay_counter: u64,
    nonce: [u8; 32],
    key_data: &[u8],
) -> Vec<u8> {
    let body_length = 95 + key_data.len();
    let mut frame = vec![2, 3];
    frame.extend_from_slice(&(body_length as u16).to_be_bytes());
    frame.push(2);
    frame.extend_from_slice(&key_information.to_be_bytes());
    frame.extend_from_slice(&key_length.to_be_bytes());
    frame.extend_from_slice(&replay_counter.to_be_bytes());
    frame.extend_from_slice(&nonce);
    frame.extend_from_slice(&[0u8; 48]);
    frame.extend_from_slice(&(key_data.len() as u16).to_be_bytes());
    frame.extend_from_slice(key_data);
    frame
}

fn hmac_sha1_prefix(key: &[u8], message: &[u8]) -> [u8; 16] {
    let mut mac = <Hmac<Sha1> as Mac>::new_from_slice(key).unwrap();
    mac.update(message);
    let digest = mac.finalize().into_bytes();
    digest[..16].try_into().unwrap()
}

fn transient_key() -> Wpa2CcmpPairwiseTransientKey {
    let pairwise_master_key = derive_wpa2_psk(b"password", b"IEEE").unwrap();
    derive_wpa2_ccmp_ptk(
        &pairwise_master_key,
        [0x00, 0x11, 0x22, 0x33, 0x44, 0x55],
        [0x66, 0x77, 0x88, 0x99, 0xaa, 0xbb],
        NONCE,
        [0x24; 32],
    )
}

#[test]
fn message_1_parser_reports_each_error() {
    assert_eq!(
        parse_wpa2_psk_ccmp_message_1(&[2, 3]),
        Err(EapolKeyDecodeError::Eapol(EapolDecodeError::Truncated {
            required: 4,
            available: 2
        }))
    );
    let good = key_frame(0x008a, 16, 1, NONCE, &[]);
    assert!(parse_wpa2_psk_ccmp_message_1(&good).is_ok());

    let mut version = good.clone();
    version[0] = 1;
    assert_eq!(
        parse_wpa2_psk_ccmp_message_1(&version),
        Err(EapolKeyDecodeError::UnexpectedProtocolVersion { actual: 1 })
    );
    let mut packet_type = good.clone();
    packet_type[1] = 0;
    assert_eq!(
        parse_wpa2_psk_ccmp_message_1(&packet_type),
        Err(EapolKeyDecodeError::UnexpectedPacketType { actual: 0 })
    );
    assert_eq!(
        parse_wpa2_psk_ccmp_message_1(&[2, 3, 0, 2, 2, 0]),
        Err(EapolKeyDecodeError::TruncatedKeyBody {
            required: 95,
            available: 2
        })
    );
    let mut descriptor = good.clone();
    descriptor[4] = 0xfe;
    assert_eq!(
        parse_wpa2_psk_ccmp_message_1(&descriptor),
        Err(EapolKeyDecodeError::UnexpectedDescriptorType { actual: 0xfe })
    );
    let tkip = key_frame(0x0089, 16, 1, NONCE, &[]);
    assert_eq!(
        parse_wpa2_psk_ccmp_message_1(&tkip),
        Err(EapolKeyDecodeError::UnexpectedDescriptorVersion { actual: 1 })
    );
    let install = key_frame(0x00ca, 16, 1, NONCE, &[]);
    assert_eq!(
        parse_wpa2_psk_ccmp_message_1(&install),
        Err(EapolKeyDecodeError::UnexpectedMessage1KeyInformation { actual: 0x00ca })
    );
    let mut overflow = good.clone();
    overflow[98] = 5;
    assert_eq!(
        parse_wpa2_psk_ccmp_message_1(&overflow),
        Err(EapolKeyDecodeError::KeyDataOverflow {
            declared: 5,
            available: 0
        })
    );
}

#[test]
fn message_3_parser_reports_each_error_before_the_mic() {
    let message_1_frame = key_frame(0x008a, 16, 5, NONCE, &[]);
    let message_1 = parse_wpa2_psk_ccmp_message_1(&message_1_frame).unwrap();
    let key = transient_key();

    let missing = key_frame(0x010a, 16, 6, NONCE, &[]);
    assert_eq!(
        parse_wpa2_psk_ccmp_message_3(&missing, &message_1, &key),
        Err(EapolKeyDecodeError::MissingMessage3KeyInformation {
            required: 0x0188,
            actual: 0x010a
        })
    );
    let request = key_frame(0x138a | 0x0800, 16, 6, NONCE, &[]);
    assert_eq!(
        parse_wpa2_psk_ccmp_message_3(&request, &message_1, &key),
        Err(EapolKeyDecodeError::ProhibitedMessage3KeyInformation {
            prohibited: 0x2830,
            actual: 0x1b8a
        })
    );
    let key_length = key_frame(0x13ca, 32, 6, NONCE, &[]);
    assert_eq!(
        parse_wpa2_psk_ccmp_message_3(&key_length, &message_1, &key),
        Err(EapolKeyDecodeError::UnexpectedMessage3KeyLength {
            expected: 16,
            actual: 32
        })
    );
    let replayed = key_frame(0x13ca, 16, 5, NONCE, &[]);
    assert_eq!(
        parse_wpa2_psk_ccmp_message_3(&replayed, &message_1, &key),
        Err(EapolKeyDecodeError::Message3ReplayCounterNotIncreased {
            previous: 5,
            actual: 5
        })
    );
    let other_nonce = key_frame(0x13ca, 16, 6, [0x43; 32], &[]);
    assert_eq!(
        parse_wpa2_psk_ccmp_message_3(&other_nonce, &message_1, &key),
        Err(EapolKeyDecodeError::Message3AuthenticatorNonceMismatch)
    );
    let mut overflow = key_frame(0x13ca, 16, 6, NONCE, &[]);
    overflow[98] = 1;
    assert_eq!(
        parse_wpa2_psk_ccmp_message_3(&overflow, &message_1, &key),
        Err(EapolKeyDecodeError::KeyDataOverflow {
            declared: 1,
            available: 0
        })
    );
    let unsigned = key_frame(0x13ca, 16, 6, NONCE, &[]);
    assert_eq!(
        parse_wpa2_psk_ccmp_message_3(&unsigned, &message_1, &key),
        Err(EapolKeyDecodeError::Message3MicMismatch)
    );
}

#[test]
fn a_message_3_signed_with_the_key_confirmation_key_is_accepted() {
    let message_1_frame = key_frame(0x008a, 16, 5, NONCE, &[]);
    let message_1 = parse_wpa2_psk_ccmp_message_1(&message_1_frame).unwrap();
    let key = transient_key();
    let key_data = [0x30, 0x02, 0x01, 0x00];
    let mut frame = key_frame(0x13ca, 16, 9, NONCE, &key_data);
    let mic = hmac_sha1_prefix(key.key_confirmation_key(), &frame);
    frame[81..97].copy_from_slice(&mic);
    frame.extend_from_slice(&[0xee; 3]);

    let message_3 = parse_wpa2_psk_ccmp_message_3(&frame, &message_1, &key).unwrap();
    assert_eq!(message_3.replay_counter, 9);
    assert_eq!(message_3.key_mic, mic);
    assert_eq!(message_3.key_data, &key_data);
    assert_eq!(message_3.trailing, &[0xee; 3]);
    assert!(message_3.install && message_3.secure && message_3.encrypted_key_data);

    let other_key = derive_wpa2_ccmp_ptk(
        &derive_wpa2_psk(b"password", b"other").unwrap(),
        [0x00, 0x11, 0x22, 0x33, 0x44, 0x55],
        [0x66, 0x77, 0x88, 0x99, 0xaa, 0xbb],
        NONCE,
        [0x24; 32],
    );
    assert_eq!(
        parse_wpa2_psk_ccmp_message_3(&frame, &message_1, &other_key),
        Err(EapolKeyDecodeError::Message3MicMismatch)
    );
}

#[test]
fn built_replies_carry_the_mic_of_the_frame_with_a_zero_mic_field() {
    let message_1_frame = key_frame(0x008a, 16, 5, NONCE, &[]);
    let message_1 = parse_wpa2_psk_ccmp_message_1(&message_1_frame).unwrap();
    let key = transient_key();
    let station_rsn = [0x30, 0x02, 0x01, 0x00];
    let mut output = [0u8; 120];
    let length = build_wpa2_psk_ccmp_message_2(
        &mut output,
        &message_1,
        [0x24; 32],
        &station_rsn,
        &key,
    )
    .unwrap();
    assert_eq!(length, 103);
    let mut zeroed = output[..length].to_vec();
    zeroed[81..97].fill(0);
    assert_eq!(
        &output[81..97],
        &hmac_sha1_prefix(key.key_confirmation_key(), &zeroed)
    );
    assert_ne!(&output[81..97], &[0u8; 16]);

    let mut frame = key_frame(0x13ca, 16, 9, NONCE, &[]);
    let mic = hmac_sha1_prefix(key.key_confirmation_key(), &frame);
    frame[81..97].copy_from_slice(&mic);
    let message_3 = parse_wpa2_psk_ccmp_message_3(&frame, &message_1, &key).unwrap();
    let mut reply = [0u8; 99];
    assert_eq!(
        build_wpa2_psk_ccmp_message_4(&mut reply, &message_3, &key),
        Ok(99)
    );
    let mut zeroed = reply.to_vec();
    zeroed[81..97].fill(0);
    assert_eq!(
        &reply[81..97],
        &hmac_sha1_prefix(key.key_confirmation_key(), &zeroed)
    );
    assert_eq!(&reply[5..7], &0x030a_u16.to_be_bytes());
    assert_eq!(&reply[9..17], &9_u64.to_be_bytes());
}

#[test]
fn message_builders_report_each_error_and_leave_the_output_alone() {
    let message_1_frame = key_frame(0x008a, 16, 5, NONCE, &[]);
    let message_1 = parse_wpa2_psk_ccmp_message_1(&message_1_frame).unwrap();
    let key = transient_key();
    let long_rsn = vec![0u8; 65536];
    let mut output = [0x11u8; 98];
    assert_eq!(
        build_wpa2_psk_ccmp_message_2(&mut output, &message_1, NONCE, &long_rsn, &key),
        Err(EapolKeyBuildError::KeyDataTooLong {
            maximum: 65535,
            actual: 65536
        })
    );
    assert_eq!(
        build_wpa2_psk_ccmp_message_2(&mut output, &message_1, NONCE, &[], &key),
        Err(EapolKeyBuildError::OutputTooShort {
            required: 99,
            available: 98
        })
    );
    assert_eq!(output, [0x11u8; 98]);
}

const ACCESS_POINT_RSN: [u8; 6] = [0x30, 0x04, 0x01, 0x00, 0xaa, 0xbb];

fn gtk_element(body_length: u8) -> Vec<u8> {
    let mut element = vec![0xdd, body_length, 0x00, 0x0f, 0xac, 0x01, 0x06, 0x00];
    element.extend((0..(body_length as usize).saturating_sub(6)).map(|byte| byte as u8));
    element
}

#[test]
fn key_data_walk_reports_each_error() {
    let mut overflow = ACCESS_POINT_RSN.to_vec();
    overflow.extend_from_slice(&[0xdd, 0x09, 0x00]);
    assert_eq!(
        parse_wpa2_psk_ccmp_key_data(&overflow, &ACCESS_POINT_RSN),
        Err(EapolKeyDataDecodeError::ElementOverflow {
            offset: 6,
            declared: 11,
            available: 3
        })
    );
    let mut mismatch = ACCESS_POINT_RSN.to_vec();
    mismatch[5] = 0xbc;
    assert_eq!(
        parse_wpa2_psk_ccmp_key_data(&mismatch, &ACCESS_POINT_RSN),
        Err(EapolKeyDataDecodeError::RsnInformationElementMismatch)
    );
    let mut short_gtk = ACCESS_POINT_RSN.to_vec();
    short_gtk.extend_from_slice(&gtk_element(21));
    assert_eq!(
        parse_wpa2_psk_ccmp_key_data(&short_gtk, &ACCESS_POINT_RSN),
        Err(EapolKeyDataDecodeError::InvalidGroupKeyLength { actual: 17 })
    );
    assert_eq!(
        parse_wpa2_psk_ccmp_key_data(&gtk_element(22), &ACCESS_POINT_RSN),
        Err(EapolKeyDataDecodeError::MissingRsnInformationElement)
    );
    assert_eq!(
        parse_wpa2_psk_ccmp_key_data(&ACCESS_POINT_RSN, &ACCESS_POINT_RSN),
        Err(EapolKeyDataDecodeError::MissingGroupTemporalKey)
    );
}

#[test]
fn key_data_walk_keeps_the_last_group_key_and_stops_at_padding() {
    let mut key_data = ACCESS_POINT_RSN.to_vec();
    key_data.extend_from_slice(&gtk_element(22));
    let mut second = gtk_element(22);
    second[6] = 0x02;
    second[8] = 0x99;
    key_data.extend_from_slice(&second);
    key_data.extend_from_slice(&[0xdd, 0x00, 0xff, 0xff, 0xff]);
    let parsed = parse_wpa2_psk_ccmp_key_data(&key_data, &ACCESS_POINT_RSN).unwrap();
    assert_eq!(parsed.group_key_index, 2);
    assert!(!parsed.group_key_transmit);
    assert_eq!(parsed.group_temporal_key[0], 0x99);

    let mut first_only = ACCESS_POINT_RSN.to_vec();
    first_only.extend_from_slice(&gtk_element(22));
    let parsed = parse_wpa2_psk_ccmp_key_data(&first_only, &ACCESS_POINT_RSN).unwrap();
    assert_eq!(parsed.group_key_index, 2);
    assert!(parsed.group_key_transmit);
    assert_eq!(
        parsed.group_temporal_key,
        [0, 1, 2, 3, 4, 5, 6, 7, 8, 9, 10, 11, 12, 13, 14, 15]
    );
}
