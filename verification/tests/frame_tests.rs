use co2_sensor::frame::{
    decode_concentration, encode_calibrate_zero, encode_read_command, MalformedResponse,
};

#[test]
fn read_command_for_default_device() {
    assert_eq!(encode_read_command(0x01), [0xFF, 0x01, 0x86, 0, 0, 0, 0, 0]);
}

#[test]
fn read_command_carries_every_device_number() {
    for d in 0..=255u8 {
        let frame = encode_read_command(d);
        assert_eq!(frame.len(), 8);
        assert_eq!(frame[0], 0xFF);
        assert_eq!(frame[1], d);
        assert_eq!(frame[2], 0x86);
        assert_eq!(&frame[3..], &[0u8; 5]);
    }
}

#[test]
fn calibrate_command_for_default_device() {
    assert_eq!(encode_calibrate_zero(0x01), [0xFF, 0x01, 0x87, 0, 0, 0, 0, 0]);
}

#[test]
fn decodes_four_hundred_ppm() {
    let response = [0xFF, 0x86, 0x01, 0x90, 0, 0, 0, 0, 0];
    assert_eq!(decode_concentration(&response), Ok(400));
}

#[test]
fn decodes_largest_concentration() {
    let response = [0xFF, 0x86, 0xFF, 0xFF, 1, 2, 3, 4, 5];
    assert_eq!(decode_concentration(&response), Ok(65535));
}

#[test]
fn truncated_response_is_malformed() {
    let response = [0xFF, 0x86, 0x01, 0x90, 0, 0, 0];
    assert_eq!(
        decode_concentration(&response),
        Err(MalformedResponse::WrongLength { length: 7 })
    );
}

#[test]
fn overlong_response_is_malformed() {
    let response = [0xFF; 10];
    assert_eq!(
        decode_concentration(&response),
        Err(MalformedResponse::WrongLength { length: 10 })
    );
}

#[test]
fn empty_response_is_malformed() {
    assert_eq!(decode_concentration(&[]), Err(MalformedResponse::WrongLength { length: 0 }));
}

#[test]
fn wrong_start_byte_is_malformed() {
    let response = [0xFE, 0x86, 0x01, 0x90, 0, 0, 0, 0, 0];
    assert_eq!(
        decode_concentration(&response),
        Err(MalformedResponse::WrongStartByte { byte: 0xFE })
    );
}

#[test]
fn check_byte_and_echo_are_not_looked_at() {
    let response = [0xFF, 0x00, 0x01, 0x9A, 9, 9, 9, 9, 9];
    assert_eq!(decode_concentration(&response), Ok(410));
}
