use ardrone_link::DroneConfig;

#[test]
fn config_lines_are_parsed() {
    let mut c = DroneConfig::new();
    c.ingest(b"a=1\nb=2\nbadline\nc=3\n");
    assert_eq!(c.get_config_str("a"), Some(String::from("1")));
    assert_eq!(c.get_config_str("b"), Some(String::from("2")));
    assert_eq!(c.get_config_str("c"), Some(String::from("3")));
    assert_eq!(c.get_config_str("badline"), None);
}

#[test]
fn split_on_first_equals_and_last_write_wins() {
    let mut c = DroneConfig::new();
    c.ingest(b"general:num_version_config = 1\nkey=a=b\nkey2=\n=empty\n");
    assert_eq!(c.get_config_str("general:num_version_config "), Some(String::from(" 1")));
    assert_eq!(c.get_config_str("key"), Some(String::from("a=b")));
    assert_eq!(c.get_config_str("key2"), Some(String::new()));
    assert_eq!(c.get_config_str(""), Some(String::from("empty")));
    c.ingest(b"key=later\n");
    assert_eq!(c.get_config(String::from("key")), Some(String::from("later")));
}

#[test]
fn a_line_split_across_reads_is_joined() {
    let mut c = DroneConfig::new();
    c.ingest(b"video:bit");
    assert_eq!(c.get_config_str("video:bitrate"), None);
    c.ingest(b"rate=1000");
    assert_eq!(c.get_config_str("video:bitrate"), None);
    c.ingest(b"\n");
    assert_eq!(c.get_config_str("video:bitrate"), Some(String::from("1000")));
    c.ingest(b"");
    assert_eq!(c.get_config_str("video:bitrate"), Some(String::from("1000")));
}

#[test]
fn non_utf8_lines_are_skipped() {
    let mut c = DroneConfig::new();
    c.ingest(b"bad=\xff\xfe\nname=caf\xc3\xa9\n");
    assert_eq!(c.get_config_str("bad"), None);
    assert_eq!(c.get_config_str("name"), Some(String::from("café")));
}
