use axdriver_aic8800::credentials::{
    WifiCredentialError, parse_wifi_credentials, wifi_credential_wire_length,
};
use axdriver_aic8800::data::{
    DataDecodeError, EAPOL_ETHERTYPE, EapolDecodeError, SDIO_RECEIVE_HEADER_LENGTH,
    decode_sdio_data_packet, parse_eapol_packet,
};
use axdriver_aic8800::rsn::{
    RSN_AKM_PSK, RSN_CIPHER_CCMP, RsnBuildError, RsnInformation, RsnParseError,
    build_wpa2_psk_ccmp_station_information_element, parse_rsn_information_element,
};

fn crc32_reference(bytes: &[u8]) -> u32 {
    let mut crc = u32::MAX;
    for &byte in bytes {
        crc ^= u32::from(byte);
        for _ in 0..8 {
            if crc & 1 == 1 {
                crc = (crc >> 1) ^ 0xedb8_8320;
            } else {
                crc >>= 1;
            }
        }
    }
    !crc
}

fn credential_frame(passphrase: &[u8], nonce: [u8; 32]) -> Vec<u8> {
    let mut frame = vec![passphrase.len() as u8];
    frame.extend_from_slice(passphrase);
    frame.extend_from_slice(&nonce);
    let crc = crc32_reference(&frame);
    frame.extend_from_slice(&crc.to_le_bytes());
    frame
}

/// A receive packet holding `frame` as its 802.11 frame.
fn receive_packet(frame: &[u8]) -> Vec<u8> {
    let mut packet = vec![0u8; SDIO_RECEIVE_HEADER_LENGTH];
    packet[0..2].copy_from_slice(&(frame.len() as u16).to_le_bytes());
    packet.extend_from_slice(frame);
    packet
}

/// A from-DS data frame carrying an LLC/SNAP header and `payload`.
fn data_frame(frame_control: [u8; 2], extra_header: &[u8], payload: &[u8]) -> Vec<u8> {
    let mut frame = vec![0u8; 24];
    frame[0] = frame_control[0];
    frame[1] = frame_control[1];
    frame[4..10].copy_from_slice(&[1, 2, 3, 4, 5, 6]);
    frame[16..22].copy_from_slice(&[7, 8, 9, 10, 11, 12]);
    frame.extend_from_slice(extra_header);
    frame.extend_from_slice(&[0xaa, 0xaa, 0x03, 0, 0, 0, 0x88, 0x8e]);
    frame.extend_from_slice(payload);
    frame
}

#[test]
fn credentials_round_trip_through_the_checksummed_wire_format() {
    let nonce = [0x5a; 32];
    let frame = credential_frame(b"password", nonce);
    assert_eq!(frame.len(), wifi_credential_wire_length(8).unwrap());
    assert_eq!(frame.len(), 45);
    let credentials = parse_wifi_credentials(&frame).unwrap();
    assert_eq!(credentials.passphrase, b"password");
    assert_eq!(credentials.station_nonce, nonce);
}

#[test]
fn credentials_accept_trailing_bytes_after_the_checksum() {
    let mut frame = credential_frame(b"0123456789", [1; 32]);
    frame.extend_from_slice(&[0xee, 0xee]);
    let credentials = parse_wifi_credentials(&frame).unwrap();
    assert_eq!(credentials.passphrase, b"0123456789");
}

#[test]
fn credentials_report_each_error() {
    assert_eq!(
        parse_wifi_credentials(&[]),
        Err(WifiCredentialError::MissingPassphraseLength)
    );
    assert_eq!(
        parse_wifi_credentials(&[7, 0, 0]),
        Err(WifiCredentialError::InvalidPassphraseLength { length: 7 })
    );
    assert_eq!(
        parse_wifi_credentials(&[64]),
        Err(WifiCredentialError::InvalidPassphraseLength { length: 64 })
    );
    let frame = credential_frame(b"password", [3; 32]);
    assert_eq!(
        parse_wifi_credentials(&frame[..44]),
        Err(WifiCredentialError::TruncatedFrame {
            required: 45,
            available: 44
        })
    );
    let mut corrupted = frame.clone();
    corrupted[3] ^= 0x01;
    let expected = u32::from_le_bytes(corrupted[41..45].try_into().unwrap());
    let actual = crc32_reference(&corrupted[..41]);
    assert_ne!(expected, actual);
    assert_eq!(
        parse_wifi_credentials(&corrupted),
        Err(WifiCredentialError::ChecksumMismatch { expected, actual })
    );
}

#[test]
fn credential_wire_length_bounds() {
    assert_eq!(wifi_credential_wire_length(8), Ok(45));
    assert_eq!(wifi_credential_wire_length(63), Ok(100));
    assert_eq!(
        wifi_credential_wire_length(0),
        Err(WifiCredentialError::InvalidPassphraseLength { length: 0 })
    );
}

#[test]
fn decodes_a_from_ds_data_frame_with_qos_and_ht_control() {
    let frame = data_frame([0x88, 0x82], &[0x00, 0x00, 0x11, 0x22, 0x33, 0x44], &[9, 8, 7]);
    let packet = receive_packet(&frame);
    let decoded = decode_sdio_data_packet(&packet).unwrap();
    assert!(decoded.qos);
    assert_eq!(decoded.destination, [1, 2, 3, 4, 5, 6]);
    assert_eq!(decoded.source, [7, 8, 9, 10, 11, 12]);
    assert_eq!(decoded.ether_type, EAPOL_ETHERTYPE);
    assert_eq!(decoded.payload, &[9, 8, 7]);
}

#[test]
fn data_packet_payload_ends_at_the_declared_frame_length() {
    let frame = data_frame([0x08, 0x02], &[], &[1, 2, 3, 4]);
    let mut packet = receive_packet(&frame);
    packet.extend_from_slice(&[0xff; 5]);
    let decoded = decode_sdio_data_packet(&packet).unwrap();
    assert!(!decoded.qos);
    assert_eq!(decoded.payload, &[1, 2, 3, 4]);
}

#[test]
fn data_packet_decoder_reports_each_error() {
    assert_eq!(
        decode_sdio_data_packet(&[0u8; 10]),
        Err(DataDecodeError::Truncated {
            required: 60,
            available: 10
        })
    );

    let mut config = vec![0u8; 60];
    config[2] = 0x91;
    assert_eq!(
        decode_sdio_data_packet(&config),
        Err(DataDecodeError::ConfigFrame { message_type: 0x11 })
    );

    let frame = data_frame([0x08, 0x02], &[], &[]);
    let packet = receive_packet(&frame);
    assert_eq!(
        decode_sdio_data_packet(&packet[..packet.len() - 1]),
        Err(DataDecodeError::Truncated {
            required: 60 + frame.len(),
            available: 60 + frame.len() - 1
        })
    );

    let short = receive_packet(&[0x08, 0x02, 0, 0]);
    assert_eq!(
        decode_sdio_data_packet(&short),
        Err(DataDecodeError::Truncated {
            required: 24,
            available: 4
        })
    );

    let management = receive_packet(&data_frame([0x80, 0x02], &[], &[]));
    assert_eq!(
        decode_sdio_data_packet(&management),
        Err(DataDecodeError::UnsupportedFrameControl {
            frame_control: 0x0280
        })
    );

    let to_ds = receive_packet(&data_frame([0x08, 0x01], &[], &[]));
    assert_eq!(
        decode_sdio_data_packet(&to_ds),
        Err(DataDecodeError::UnsupportedDistributionSystemBits { value: 1 })
    );

    let aggregated = receive_packet(&data_frame([0x88, 0x02], &[0x80, 0x00], &[]));
    assert_eq!(
        decode_sdio_data_packet(&aggregated),
        Err(DataDecodeError::AggregatedMsduUnsupported)
    );

    let mut bad_snap = data_frame([0x08, 0x02], &[], &[]);
    bad_snap[24] = 0xab;
    assert_eq!(
        decode_sdio_data_packet(&receive_packet(&bad_snap)),
        Err(DataDecodeError::InvalidLlcSnapHeader)
    );
}

#[test]
fn eapol_packet_splits_body_and_trailing_bytes() {
    let packet = parse_eapol_packet(&[2, 3, 0, 2, 0xa, 0xb, 0xc]).unwrap();
    assert_eq!(packet.protocol_version, 2);
    assert_eq!(packet.packet_type, 3);
    assert_eq!(packet.body, &[0xa, 0xb]);
    assert_eq!(packet.trailing, &[0xc]);
    assert_eq!(
        parse_eapol_packet(&[2, 3, 0]),
        Err(EapolDecodeError::Truncated {
            required: 4,
            available: 3
        })
    );
    assert_eq!(
        parse_eapol_packet(&[2, 3, 0, 3, 1]),
        Err(EapolDecodeError::Truncated {
            required: 7,
            available: 5
        })
    );
}

const STATION_RSN: [u8; 22] = [
    0x30, 0x14, 0x01, 0x00, 0x00, 0x0f, 0xac, 0x04, 0x01, 0x00, 0x00, 0x0f, 0xac, 0x04, 0x01, 0x00,
    0x00, 0x0f, 0xac, 0x02, 0x00, 0x00,
];

#[test]
fn rsn_parser_reports_each_error() {
    assert_eq!(
        parse_rsn_information_element(&[0x30]),
        Err(RsnParseError::Truncated {
            required: 2,
            available: 1
        })
    );
    assert_eq!(
        parse_rsn_information_element(&[0xdd, 0]),
        Err(RsnParseError::UnexpectedElementId {
            expected: 48,
            actual: 0xdd
        })
    );
    assert_eq!(
        parse_rsn_information_element(&[0x30, 5, 1]),
        Err(RsnParseError::LengthMismatch {
            declared: 5,
            actual: 1
        })
    );
    assert_eq!(
        parse_rsn_information_element(&[0x30, 2, 2, 0]),
        Err(RsnParseError::UnsupportedVersion {
            expected: 1,
            actual: 2
        })
    );
    assert_eq!(
        parse_rsn_information_element(&[0x30, 4, 1, 0, 0, 0x0f]),
        Err(RsnParseError::Truncated {
            required: 8,
            available: 6
        })
    );
    let mut empty_pairwise = STATION_RSN;
    empty_pairwise[8] = 0;
    assert_eq!(
        parse_rsn_information_element(&empty_pairwise),
        Err(RsnParseError::EmptyPairwiseCipherList)
    );
    let mut empty_akm = STATION_RSN;
    empty_akm[14] = 0;
    assert_eq!(
        parse_rsn_information_element(&empty_akm),
        Err(RsnParseError::EmptyAuthenticationKeyManagementList)
    );
    let mut trailing = STATION_RSN.to_vec();
    trailing.push(0x77);
    trailing[1] = 21;
    assert_eq!(
        parse_rsn_information_element(&trailing),
        Err(RsnParseError::UnexpectedTrailingBytes { count: 1 })
    );
}

#[test]
fn the_station_element_parses_back_to_ccmp_and_psk() {
    let rsn = parse_rsn_information_element(&STATION_RSN).unwrap();
    assert_eq!(rsn.group_cipher, RSN_CIPHER_CCMP);
    assert_eq!(rsn.pairwise_cipher_suites, &RSN_CIPHER_CCMP);
    assert_eq!(rsn.authentication_key_management_suites, &RSN_AKM_PSK);
    assert_eq!(rsn.capabilities, 0);

    let mut output = [0u8; 22];
    assert_eq!(
        build_wpa2_psk_ccmp_station_information_element(&mut output, &rsn),
        Ok(22)
    );
    assert_eq!(output, STATION_RSN);
}

#[test]
fn rsn_builder_reports_each_error() {
    let good = RsnInformation {
        group_cipher: RSN_CIPHER_CCMP,
        pairwise_cipher_suites: &RSN_CIPHER_CCMP,
        authentication_key_management_suites: &RSN_AKM_PSK,
        capabilities: 0,
    };
    let mut short = [0u8; 21];
    assert_eq!(
        build_wpa2_psk_ccmp_station_information_element(&mut short, &good),
        Err(RsnBuildError::OutputTooShort {
            required: 22,
            available: 21
        })
    );
    let mut output = [0u8; 22];
    let tkip_group = RsnInformation {
        group_cipher: [0x00, 0x0f, 0xac, 0x02],
        ..good
    };
    assert_eq!(
        build_wpa2_psk_ccmp_station_information_element(&mut output, &tkip_group),
        Err(RsnBuildError::UnsupportedGroupCipher {
            actual: [0x00, 0x0f, 0xac, 0x02]
        })
    );
    let tkip_pairwise = RsnInformation {
        pairwise_cipher_suites: &[0x00, 0x0f, 0xac, 0x02],
        ..good
    };
    assert_eq!(
        build_wpa2_psk_ccmp_station_information_element(&mut output, &tkip_pairwise),
        Err(RsnBuildError::PairwiseCcmpMissing)
    );
    let sae_only = RsnInformation {
        authentication_key_management_suites: &[0x00, 0x0f, 0xac, 0x08],
        ..good
    };
    assert_eq!(
        build_wpa2_psk_ccmp_station_information_element(&mut output, &sae_only),
        Err(RsnBuildError::PskAuthenticationMissing)
    );
    assert_eq!(output, [0u8; 22]);
}
