use axdriver_aic8800::me::{
    MeEncodeError, encode_d80_board_channel_config, encode_d80_board_me_config,
    encode_set_control_port_parameters,
};
use axdriver_aic8800::runtime::{
    RuntimeDecodeError, RuntimeEncodeError, decode_mm_add_interface_confirmation,
    encode_d80_start_parameters, encode_station_interface_parameters,
};
use axdriver_aic8800::tx::{
    DataTransmitError, EthernetTransmitParameters, build_d80_ethernet_data_transfer,
};

#[test]
fn runtime_codecs_report_short_buffers() {
    let mut start = [0xaau8; 72];
    assert_eq!(encode_d80_start_parameters(&mut start), Ok(72));
    assert_eq!(&start[64..70], &[0x2c, 0x01, 0, 0, 20, 0]);
    assert!(start[..64].iter().all(|&byte| byte == 0));
    assert_eq!(
        encode_d80_start_parameters(&mut [0u8; 71]),
        Err(RuntimeEncodeError {
            required: 72,
            available: 71
        })
    );
    assert_eq!(
        encode_station_interface_parameters(&mut [0u8; 9], [1; 6]),
        Err(RuntimeEncodeError {
            required: 10,
            available: 9
        })
    );
    assert_eq!(
        decode_mm_add_interface_confirmation(&[0]),
        Err(RuntimeDecodeError {
            required: 2,
            available: 1
        })
    );
}

#[test]
fn me_encoders_report_short_buffers_and_encode_the_port_state() {
    assert_eq!(
        encode_d80_board_me_config(&mut [0u8; 111]),
        Err(MeEncodeError {
            required: 112,
            available: 111
        })
    );
    assert_eq!(
        encode_d80_board_channel_config(&mut [0u8; 253]),
        Err(MeEncodeError {
            required: 254,
            available: 253
        })
    );
    assert_eq!(
        encode_set_control_port_parameters(&mut [0u8; 1], 1, true),
        Err(MeEncodeError {
            required: 2,
            available: 1
        })
    );
    let mut port = [0xffu8; 3];
    assert_eq!(encode_set_control_port_parameters(&mut port, 4, false), Ok(2));
    assert_eq!(port, [4, 0, 0xff]);
    assert_eq!(encode_set_control_port_parameters(&mut port, 4, true), Ok(2));
    assert_eq!(port, [4, 1, 0xff]);
}

#[test]
fn ethernet_transfer_length_rounds_up_with_the_link_tail() {
    let parameters = EthernetTransmitParameters {
        destination_address: [0xff; 6],
        source_address: [2; 6],
        ether_type: 0x0806,
        interface_index: 0,
        station_index: 0,
        confirmation_index: 0,
    };
    let mut output = [0u8; 1024];
    // 4 + 28 + 480 = 512 bytes: already a whole block, so no tail.
    let lengths = build_d80_ethernet_data_transfer(&mut output, parameters, &[0u8; 480]).unwrap();
    assert_eq!((lengths.frame_length, lengths.transfer_length), (512, 512));
    // 4 + 28 + 477 = 509 bytes align to 512, a whole block again.
    let lengths = build_d80_ethernet_data_transfer(&mut output, parameters, &[0u8; 477]).unwrap();
    assert_eq!((lengths.frame_length, lengths.transfer_length), (509, 512));
    // 4 + 28 + 476 = 508 bytes: the tail reaches 512 exactly.
    let lengths = build_d80_ethernet_data_transfer(&mut output, parameters, &[0u8; 476]).unwrap();
    assert_eq!((lengths.frame_length, lengths.transfer_length), (508, 512));
    // 4 + 28 + 481 = 513 bytes need a second block.
    let lengths = build_d80_ethernet_data_transfer(&mut output, parameters, &[0u8; 481]).unwrap();
    assert_eq!((lengths.frame_length, lengths.transfer_length), (513, 1024));
    assert_eq!(
        build_d80_ethernet_data_transfer(&mut [0u8; 1023], parameters, &[0u8; 481]),
        Err(DataTransmitError::OutputTooShort {
            required: 1024,
            available: 1023
        })
    );
}
