use robotica_backend::hdmi::{map_input, status_messages};
use robotica_backend::robotica::Id;
use robotica_backend::hdmi::{
    add_checksum, apply_query_response, apply_switch_response, calc_checksum, check_checksum,
    get_cmd_input_for_output, get_cmd_switch, record_input, Status,
};

#[test]
fn test_calc_checksum() {
    let bytes = [
        0xa5, 0x5b, 0x02, 0x03, 0x03, 0x00, 0x04, 0x00, 0x00, 0x00, 0x00, 0x00,
    ];
    let checksum = calc_checksum(&bytes);
    assert_eq!(checksum, 0xf4);
}

#[test]
fn test_add_checksum() {
    let mut bytes = [
        0xa5, 0x5b, 0x02, 0x03, 0x03, 0x00, 0x04, 0x00, 0x00, 0x00, 0x00, 0x00, 0x99,
    ];
    let expected_bytes = [
        0xa5, 0x5b, 0x02, 0x03, 0x03, 0x00, 0x04, 0x00, 0x00, 0x00, 0x00, 0x00, 0xF4,
    ];
    add_checksum(&mut bytes);
    assert_eq!(bytes, expected_bytes);
}

#[test]
fn test_check_checksum() {
    let bytes = [
        0xa5, 0x5b, 0x02, 0x03, 0x03, 0x00, 0x04, 0x00, 0x00, 0x00, 0x00, 0x00, 0xF4,
    ];
    assert!(check_checksum(&bytes));
}

#[test]
fn test_get_cmd_switch() {
    let bytes = get_cmd_switch(3, 4);
    let expected_bytes = [
        0xa5, 0x5b, 0x02, 0x03, 0x03, 0x00, 0x04, 0x00, 0x00, 0x00, 0x00, 0x00, 0xF4,
    ];
    assert_eq!(bytes, expected_bytes);
}

#[test]
fn test_get_cmd_input_for_output() {
    let bytes = get_cmd_input_for_output(4);
    let expected_bytes = [
        0xa5, 0x5b, 0x02, 0x01, 0x04, 0x00, 0x00, 0x00, 0x00, 0x00, 0x00, 0x00, 0xF9,
    ];
    assert_eq!(bytes, expected_bytes);
}

#[test]
fn checksum_of_long_body_is_low_byte_of_sum() {
    let bytes = [0x80u8; 14];
    assert_eq!(calc_checksum(&bytes), 0x00);
    let bytes = [0x01u8; 14];
    assert_eq!(calc_checksum(&bytes), 14);
}

#[test]
fn checksum_of_zero_body_is_zero() {
    assert_eq!(calc_checksum(&[0u8; 12]), 0);
    assert_eq!(calc_checksum(&[]), 0);
}

#[test]
fn corrupted_frame_fails_check() {
    let mut bytes = get_cmd_switch(2, 1);
    assert!(check_checksum(&bytes));
    bytes[5] = 0x01;
    assert!(!check_checksum(&bytes));
}

#[test]
fn query_response_updates_output() {
    let status: Status = [None; 4];
    let mut response = [0u8; 13];
    response[4] = 2;
    response[6] = 3;
    let status = apply_query_response(&status, &response);
    assert_eq!(status, [None, Some(3), None, None]);
    let status = apply_switch_response(&status, 1, &response);
    assert_eq!(status, [None, Some(3), Some(1), None]);
    response[6] = 4;
    let status = apply_switch_response(&status, 2, &response);
    assert_eq!(status, [None, Some(3), Some(1), Some(2)]);
}

#[test]
fn unknown_output_is_ignored() {
    let status: Status = [Some(1); 4];
    assert_eq!(record_input(&status, 5, 9), status);
}

#[test]
fn hdmi_map_input_and_state_messages() {
    assert_eq!(map_input(None), "HARD_OFF");
    assert_eq!(map_input(Some(3)), "3");
    let id = Id::new("lounge", "tv");
    let m = status_messages(&id, Some([Some(1), None, Some(12), Some(4)]));
    assert_eq!(m.len(), 4);
    assert_eq!(m[0].topic, "state/lounge/tv/output1");
    assert_eq!(m[0].payload, "1");
    assert_eq!(m[1].payload, "HARD_OFF");
    assert_eq!(m[2].payload, "12");
    assert_eq!(m[3].topic, "state/lounge/tv/output4");
    let m = status_messages(&id, None);
    assert!(m.iter().all(|x| x.payload == "HARD_OFF"));
}

#[test]
fn hdmi_built_frames_pass_the_check() {
    for output in 1..=4u8 {
        assert!(check_checksum(&get_cmd_input_for_output(output)));
        for input in 1..=4u8 {
            assert!(check_checksum(&get_cmd_switch(input, output)));
        }
    }
}

#[test]
fn hdmi_record_read_after_write() {
    let status: Status = [Some(1), None, Some(3), None];
    let s = record_input(&status, 2, 4);
    assert_eq!(s, [Some(1), Some(4), Some(3), None]);
}
