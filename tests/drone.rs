use ardrone_link::{Command, Drone, LinkPhase, VideoCodec, Worker};

fn connected() -> Drone {
    let mut d = Drone::new();
    assert!(d.startup(true).is_ok());
    d.workers_started();
    d.take_commands();
    d
}

fn lines(cmds: Vec<Command>) -> Vec<String> {
    cmds.into_iter()
        .map(|c| {
            let mut s = c.name.clone();
            for p in &c.params {
                s.push(',');
                s.push_str(p);
            }
            s
        })
        .collect()
}

fn one(d: &mut Drone) -> String {
    let l = lines(d.take_commands());
    assert_eq!(l.len(), 1, "{:?}", l);
    l[0].clone()
}

#[test]
fn unreachable_vehicle_fails_startup() {
    let mut d = Drone::new();
    assert_eq!(d.startup(false), Err(String::from("Drone is not online!")));
    assert_eq!(d.phase(), LinkPhase::Disconnected);
}

#[test]
fn startup_queues_the_initialisation() {
    let mut d = Drone::new();
    assert!(d.startup(true).is_ok());
    assert_eq!(d.phase(), LinkPhase::Connecting);
    d.workers_started();
    assert_eq!(d.phase(), LinkPhase::Connected);
    assert_eq!(lines(d.take_commands()), vec![
        "CONFIG,\"general:navdata_demo\",\"TRUE\"",
        "CTRL,5,0",
        "CONFIG,\"custom:session_id\",\"-all\"",
        "CTRL,5,0",
        "CTRL,5,0",
        "CTRL,4,0",
    ]);
    assert!(d.take_commands().is_empty());
}

#[test]
fn failed_workers_return_to_disconnected() {
    let mut d = Drone::new();
    assert!(d.startup(true).is_ok());
    d.workers_failed();
    assert_eq!(d.phase(), LinkPhase::Disconnected);
    d.takeoff();
    assert!(d.take_commands().is_empty());
}

#[test]
fn commands_before_connection_are_dropped() {
    let mut d = Drone::new();
    d.takeoff();
    d.hover();
    assert!(d.take_commands().is_empty());
}

#[test]
fn shutdown_stops_telemetry_then_config_then_commands() {
    let mut d = connected();
    assert_eq!(d.shutdown(), vec![Worker::Telemetry, Worker::Config, Worker::Command]);
    assert_eq!(d.phase(), LinkPhase::ShuttingDown);
    d.land();
    assert!(d.take_commands().is_empty());
    d.shutdown_complete();
    assert_eq!(d.phase(), LinkPhase::Closed);
    assert!(d.shutdown().is_empty());
}

#[test]
fn flight_commands() {
    let mut d = connected();
    d.takeoff();
    assert_eq!(one(&mut d), "REF,290718208");
    d.land();
    assert_eq!(one(&mut d), "REF,290717696");
    d.reset();
    assert_eq!(one(&mut d), "REF,290717952");
    d.trim();
    assert_eq!(one(&mut d), "FTRIM");
    d.mtrim();
    assert_eq!(one(&mut d), "CALIB,0");
    d.aflight(true);
    assert_eq!(one(&mut d), "AFLIGHT,1");
    d.aflight(false);
    assert_eq!(one(&mut d), "AFLIGHT,0");
}

#[test]
fn hover_sends_negative_zero_for_back_front() {
    let mut d = connected();
    d.hover();
    assert_eq!(one(&mut d), "PCMD,3,0,2147483648,0,0");
    d.stop();
    assert_eq!(one(&mut d), "PCMD,3,0,2147483648,0,0");
}

#[test]
fn default_speed_moves() {
    let mut d = connected();
    let s = 0.2f32.to_bits();
    let n = (-0.2f32).to_bits();
    let nz = (-0.0f32).to_bits();
    d.move_right();
    assert_eq!(one(&mut d), format!("PCMD,3,{},{},0,0", s, nz));
    d.move_left();
    assert_eq!(one(&mut d), format!("PCMD,3,{},{},0,0", n, nz));
    d.move_forward();
    assert_eq!(one(&mut d), format!("PCMD,3,0,{},0,0", n));
    d.move_backward();
    assert_eq!(one(&mut d), format!("PCMD,3,0,{},0,0", s));
    d.move_up();
    assert_eq!(one(&mut d), format!("PCMD,3,0,{},{},0", nz, s));
    d.move_down();
    assert_eq!(one(&mut d), format!("PCMD,3,0,{},{},0", nz, n));
}

#[test]
fn speeds_are_clamped_to_unit() {
    let mut d = connected();
    d.mov(3.5f32.to_bits(), (-7.0f32).to_bits(), f32::INFINITY.to_bits(), 0.5f32.to_bits());
    assert_eq!(
        one(&mut d),
        format!("PCMD,3,{},{},{},{}", 1.0f32.to_bits(), 1.0f32.to_bits(), 1.0f32.to_bits(), 0.5f32.to_bits())
    );
    d.turn_left(0.25f32.to_bits());
    assert_eq!(one(&mut d), format!("PCMD,3,0,{},0,{}", (-0.0f32).to_bits(), (-0.25f32).to_bits()));
    d.set_speed((-2.0f32).to_bits());
    d.move_right();
    assert_eq!(one(&mut d), format!("PCMD,3,{},{},0,0", 1.0f32.to_bits(), (-0.0f32).to_bits()));
    d.set_speed((-0.5f32).to_bits());
    d.move_up();
    assert_eq!(one(&mut d), format!("PCMD,3,0,{},{},0", (-0.0f32).to_bits(), 0.5f32.to_bits()));
}

#[test]
fn relative_move_and_trim() {
    let mut d = connected();
    d.rel_mov(0, 0, 0, 0, 2.0f32.to_bits(), 0.5f32.to_bits());
    assert_eq!(
        one(&mut d),
        format!("PCMD_MAG,1,0,2147483648,0,0,{},{}", 1.0f32.to_bits(), 0.5f32.to_bits())
    );
    d.mantrim(1.0f32.to_bits(), 0, 5);
    assert_eq!(one(&mut d), "MTRIM,1065353216,0,5");
}

#[test]
fn animations_check_their_bounds() {
    let mut d = connected();
    d.anim(3, 2);
    assert_eq!(one(&mut d), "ANIM,3,2");
    d.anim(20, 2);
    d.anim(3, 0);
    assert!(d.take_commands().is_empty());
    d.led(20, 2.0f32.to_bits(), 3);
    assert_eq!(one(&mut d), format!("LED,20,{},3", 2.0f32.to_bits()));
    d.led(21, 2.0f32.to_bits(), 3);
    d.led(1, 0, 3);
    d.led(1, (-1.0f32).to_bits(), 3);
    d.led(1, f32::NAN.to_bits(), 3);
    d.led(1, 2.0f32.to_bits(), 0);
    assert!(d.take_commands().is_empty());
}

#[test]
fn engine_thrust_is_capped() {
    let mut d = connected();
    d.manual_engine(0, 1023, 1024, u32::MAX);
    assert_eq!(one(&mut d), "PWM,0,1023,1023,1023");
}

#[test]
fn configuration_commands() {
    let mut d = connected();
    d.set_config("video:bitrate", String::from("500"));
    assert_eq!(one(&mut d), "CONFIG,\"video:bitrate\",\"500\"");
    d.set_config_str("a", "b");
    assert_eq!(one(&mut d), "CONFIG,\"a\",\"b\"");
    d.use_demo_mode(false);
    assert_eq!(one(&mut d), "CONFIG,\"general:navdata_demo\",\"FALSE\"");
    d.update_config();
    assert_eq!(lines(d.take_commands()), vec!["CTRL,5,0", "CTRL,4,0"]);
    d.send_config_ids();
    assert_eq!(one(&mut d), "CONFIG_IDS,\"03016321\",\"0a100407\",\"03016321\"");
    d.use_front_cam();
    assert_eq!(one(&mut d), "CONFIG,\"video:video_channel\",\"0\"");
    d.use_ground_cam();
    assert_eq!(one(&mut d), "CONFIG,\"video:video_channel\",\"1\"");
}

#[test]
fn video_settings() {
    let mut d = connected();
    let codec = |d: &mut Drone| one(d).replace("CONFIG,\"video:video_codec\",", "");
    d.set_video_codec(VideoCodec::MP4_360p);
    assert_eq!(codec(&mut d), "\"128\"");
    d.set_sd_video_stream();
    assert_eq!(codec(&mut d), "\"129\"");
    d.set_hd_video_capture();
    assert_eq!(codec(&mut d), "\"130\"");
    d.set_hd_video_stream();
    assert_eq!(codec(&mut d), "\"131\"");
    d.set_sd_video_capture();
    assert_eq!(codec(&mut d), "\"136\"");
    d.set_mp4_video_stream();
    assert_eq!(codec(&mut d), "\"128\"");
    d.set_video_fps(0);
    assert_eq!(one(&mut d), "CONFIG,\"video:codec_fps\",\"60\"");
    d.set_video_fps(61);
    assert_eq!(one(&mut d), "CONFIG,\"video:codec_fps\",\"60\"");
    d.set_video_fps(15);
    assert_eq!(one(&mut d), "CONFIG,\"video:codec_fps\",\"15\"");
    d.set_video_bitrate(10);
    assert_eq!(one(&mut d), "CONFIG,\"video:bitrate\",\"250\"");
    d.set_video_bitrate(30000);
    assert_eq!(one(&mut d), "CONFIG,\"video:bitrate\",\"20000\"");
    d.set_video_bitrate(4000);
    assert_eq!(one(&mut d), "CONFIG,\"video:bitrate\",\"4000\"");
}
