use ardrone_link::{format_command, format_int, format_str, format_string, format_uint};

#[test]
fn int_tokens_are_decimal() {
    assert_eq!(format_int(0), "0");
    assert_eq!(format_int(7), "7");
    assert_eq!(format_int(1023), "1023");
    assert_eq!(format_int(-42), "-42");
    assert_eq!(format_int(i32::MAX), "2147483647");
    assert_eq!(format_int(i32::MIN), "-2147483648");
}

#[test]
fn float_tokens_are_bit_patterns() {
    assert_eq!(format_uint(0.0f32.to_bits()), "0");
    assert_eq!(format_uint((-0.0f32).to_bits()), "2147483648");
    assert_eq!(format_uint(1.0f32.to_bits()), "1065353216");
    assert_eq!(format_uint(u32::MAX), "4294967295");
}

#[test]
fn strings_are_quoted() {
    assert_eq!(format_str("general:navdata_demo"), "\"general:navdata_demo\"");
    assert_eq!(format_str(""), "\"\"");
    assert_eq!(format_string(String::from("-all")), "\"-all\"");
}

#[test]
fn command_line_layout() {
    assert_eq!(
        format_command(5, "REF", &vec![String::from("290718208")]),
        "AT*REF=5,290718208\r"
    );
    assert_eq!(format_command(7, "COMWDG", &Vec::new()), "AT*COMWDG=7\r");
    assert_eq!(
        format_command(12, "PCMD", &vec![
            String::from("3"),
            String::from("0"),
            String::from("2147483648"),
            String::from("0"),
            String::from("0"),
        ]),
        "AT*PCMD=12,3,0,2147483648,0,0\r"
    );
}
