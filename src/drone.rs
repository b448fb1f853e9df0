use vstd::prelude::*;

use crate::dispatch::Command;
use crate::format::{decimal, format_int, format_str, format_string, format_uint, quoted, signed_decimal};

verus! {

/// Codec used for streaming on UDP 5555 and, where a second one is named,
/// for recording on TCP 5553.
#[allow(non_camel_case_types)]
#[derive(Clone, Copy, PartialEq, Eq, Structural, Debug)]
pub enum VideoCodec {
    MP4_360p,
    H264_360p,
    MP4_360pH264_720p,
    MP4_360pH264_360p,
    H264_720p,
}

/// The lifecycle of the link.
#[derive(Clone, Copy, PartialEq, Eq, Structural, Debug)]
pub enum LinkPhase {
    Disconnected,
    Connecting,
    Connected,
    ShuttingDown,
    Closed,
}

/// One of the three protocol workers.
#[derive(Clone, Copy, PartialEq, Eq, Structural, Debug)]
pub enum Worker {
    Telemetry,
    Config,
    Command,
}

/// Sign bit of an IEEE-754 single.
pub const SIGN_BIT: u32 = 0x8000_0000;

/// Everything but the sign bit of an IEEE-754 single.
pub const MAGNITUDE_MASK: u32 = 0x7FFF_FFFF;

/// Bit pattern of 1.0f32.
pub const ONE_BITS: u32 = 0x3F80_0000;

/// Bit pattern of positive infinity; larger magnitudes are NaN.
pub const INFINITY_BITS: u32 = 0x7F80_0000;

/// Bit pattern of 0.2f32, the default movement speed.
pub const DEFAULT_SPEED_BITS: u32 = 0x3E4C_CCCD;

/// Largest thrust accepted by the engines.
pub const MAX_THRUST: u32 = 1023;

/// Frame rate used when none or too high a one is asked for.
pub const MAX_FPS: u32 = 60;

pub const MIN_BITRATE: u32 = 250;

pub const MAX_BITRATE: u32 = 20000;

/// Number of preset flight animations.
pub const ANIMATION_COUNT: usize = 20;

/// Number of preset LED animations.
pub const LED_ANIMATION_COUNT: usize = 21;

/// A float (as bits) with its sign flipped.
pub open spec fn negated(b: u32) -> u32 {
    b ^ SIGN_BIT
}

/// A float (as bits) whose magnitude exceeds one, infinity included, is
/// replaced by one of the same sign; any other value, NaN included, is kept.
pub open spec fn clamp_unit(b: u32) -> u32 {
    if (b & MAGNITUDE_MASK) > ONE_BITS && (b & MAGNITUDE_MASK) <= INFINITY_BITS {
        (b & SIGN_BIT) | ONE_BITS
    } else {
        b
    }
}

/// The default speed that a requested one (as bits) gives: its magnitude,
/// capped at one.
pub open spec fn speed_of(b: u32) -> u32 {
    if (b & MAGNITUDE_MASK) > ONE_BITS && (b & MAGNITUDE_MASK) <= INFINITY_BITS {
        ONE_BITS
    } else {
        b & MAGNITUDE_MASK
    }
}

/// Whether a float (as bits) is greater than zero.
pub open spec fn is_positive(b: u32) -> bool {
    0 < b <= INFINITY_BITS
}

/// A float parameter token: the decimal value of its bit pattern.
pub open spec fn float_token(b: u32) -> Seq<char> {
    decimal(b as nat)
}

/// Parameters of the basic move command, each speed clamped to [-1, 1] and
/// the back-to-front speed sent negated.
pub open spec fn pcmd_params(lr: u32, bf: u32, du: u32, tlr: u32) -> Seq<Seq<char>> {
    seq![
        signed_decimal(3),
        float_token(clamp_unit(lr)),
        float_token(negated(clamp_unit(bf))),
        float_token(clamp_unit(du)),
        float_token(clamp_unit(tlr)),
    ]
}

/// The config key and value that select a codec.
pub open spec fn codec_value(c: VideoCodec) -> Seq<char> {
    match c {
        VideoCodec::MP4_360p => "128"@,
        VideoCodec::H264_360p => "129"@,
        VideoCodec::MP4_360pH264_720p => "130"@,
        VideoCodec::H264_720p => "131"@,
        VideoCodec::MP4_360pH264_360p => "136"@,
    }
}

/// Parameters of a configuration command.
pub open spec fn config_params(name: Seq<char>, value: Seq<char>) -> Seq<Seq<char>> {
    seq![quoted(name), quoted(value)]
}

/// Model of the vehicle facade.
pub struct DroneModel {
    pub phase: LinkPhase,
    /// Commands issued and not yet handed to the dispatch worker.
    pub outbox: Seq<(Seq<char>, Seq<Seq<char>>)>,
    /// Default movement speed, as the bits of an f32.
    pub speed: u32,
    pub session_id: Seq<char>,
    pub user_id: Seq<char>,
    pub application_id: Seq<char>,
}

/// The facade after a command is issued: while connected it joins the
/// outbox; otherwise it is dropped.
pub open spec fn issued(d: DroneModel, name: Seq<char>, params: Seq<Seq<char>>) -> DroneModel {
    if d.phase == LinkPhase::Connected {
        DroneModel { outbox: d.outbox.push((name, params)), ..d }
    } else {
        d
    }
}

/// Once shutdown has begun, and before the link is connected, a command
/// changes nothing: no command reaches the dispatch worker any more.
pub proof fn lemma_no_command_unless_connected(d: DroneModel, name: Seq<char>, params: Seq<Seq<char>>)
    requires
        d.phase != LinkPhase::Connected,
    ensures
        issued(d, name, params) == d,
{
}

pub open spec fn issued_config(d: DroneModel, name: Seq<char>, value: Seq<char>) -> DroneModel {
    issued(d, "CONFIG"@, config_params(name, value))
}

pub open spec fn command_view(c: Command) -> (Seq<char>, Seq<Seq<char>>) {
    (c.name@, c.params.deep_view())
}

/// Commands issued right after the workers start: demo telemetry mode, a
/// session reset and a request for the configuration.
pub open spec fn after_startup(d: DroneModel) -> DroneModel {
    let d1 = issued_config(d, "general:navdata_demo"@, "TRUE"@);
    let d2 = issued(d1, "CTRL"@, seq!["5"@, "0"@]);
    let d3 = issued_config(d2, "custom:session_id"@, "-all"@);
    let d4 = issued(d3, "CTRL"@, seq!["5"@, "0"@]);
    let d5 = issued(d4, "CTRL"@, seq!["5"@, "0"@]);
    issued(d5, "CTRL"@, seq!["4"@, "0"@])
}

fn new_params() -> (p: Vec<String>)
    ensures
        p.deep_view() == Seq::<Seq<char>>::empty(),
{
    let p: Vec<String> = Vec::new();
    assert(p.deep_view() =~= Seq::<Seq<char>>::empty());
    p
}

fn list1(a: String) -> (p: Vec<String>)
    ensures
        p.deep_view() == seq![a@],
{
    let mut p = new_params();
    push_param(&mut p, a);
    assert(p.deep_view() =~= seq![a@]);
    p
}

fn list2(a: String, b: String) -> (p: Vec<String>)
    ensures
        p.deep_view() == seq![a@, b@],
{
    let mut p = list1(a);
    push_param(&mut p, b);
    assert(p.deep_view() =~= seq![a@, b@]);
    p
}

fn list3(a: String, b: String, c: String) -> (p: Vec<String>)
    ensures
        p.deep_view() == seq![a@, b@, c@],
{
    let mut p = list2(a, b);
    push_param(&mut p, c);
    assert(p.deep_view() =~= seq![a@, b@, c@]);
    p
}

fn list4(a: String, b: String, c: String, d: String) -> (p: Vec<String>)
    ensures
        p.deep_view() == seq![a@, b@, c@, d@],
{
    let mut p = list3(a, b, c);
    push_param(&mut p, d);
    assert(p.deep_view() =~= seq![a@, b@, c@, d@]);
    p
}

fn list5(a: String, b: String, c: String, d: String, e: String) -> (p: Vec<String>)
    ensures
        p.deep_view() == seq![a@, b@, c@, d@, e@],
{
    let mut p = list4(a, b, c, d);
    push_param(&mut p, e);
    assert(p.deep_view() =~= seq![a@, b@, c@, d@, e@]);
    p
}

fn list7(a: String, b: String, c: String, d: String, e: String, f: String, g: String) -> (p: Vec<String>)
    ensures
        p.deep_view() == seq![a@, b@, c@, d@, e@, f@, g@],
{
    let mut p = list5(a, b, c, d, e);
    push_param(&mut p, f);
    push_param(&mut p, g);
    assert(p.deep_view() =~= seq![a@, b@, c@, d@, e@, f@, g@]);
    p
}

fn push_param(p: &mut Vec<String>, s: String)
    ensures
        final(p).deep_view() == old(p).deep_view().push(s@),
{
    let ghost before = p.deep_view();
    p.push(s);
    assert(p.deep_view() =~= before.push(s@));
}

/// A float (as bits) with its sign flipped.
fn negate(b: u32) -> (r: u32)
    ensures
        r == negated(b),
{
    b ^ SIGN_BIT
}

fn clamp(b: u32) -> (r: u32)
    ensures
        r == clamp_unit(b),
{
    if (b & MAGNITUDE_MASK) > ONE_BITS && (b & MAGNITUDE_MASK) <= INFINITY_BITS {
        (b & SIGN_BIT) | ONE_BITS
    } else {
        b
    }
}

/// The vehicle facade: turns maneuvers and settings into commands for the
/// dispatch worker and tracks the lifecycle of the link.
pub struct Drone {
    phase: LinkPhase,
    outbox: Vec<Command>,
    speed: u32,
    session_id: String,
    user_id: String,
    application_id: String,
}

impl View for Drone {
    type V = DroneModel;

    closed spec fn view(&self) -> DroneModel {
        DroneModel {
            phase: self.phase,
            outbox: self.outbox@.map_values(|c: Command| command_view(c)),
            speed: self.speed,
            session_id: self.session_id@,
            user_id: self.user_id@,
            application_id: self.application_id@,
        }
    }
}

impl Drone {
    /// A disconnected facade with default settings.
    pub fn new() -> (r: Drone)
        ensures
            r@.phase == LinkPhase::Disconnected,
            r@.outbox.len() == 0,
            r@.speed == DEFAULT_SPEED_BITS,
            r@.session_id == "03016321"@,
            r@.user_id == "0a100407"@,
            r@.application_id == "03016321"@,
    {
        let r = Drone {
            phase: LinkPhase::Disconnected,
            outbox: Vec::new(),
            speed: DEFAULT_SPEED_BITS,
            session_id: String::from_str("03016321"),
            user_id: String::from_str("0a100407"),
            application_id: String::from_str("03016321"),
        };
        r
    }

    /// The current phase of the link.
    pub fn phase(&self) -> (r: LinkPhase)
        ensures
            r == self@.phase,
    {
        self.phase
    }

    /// Starts the link once the reachability probe has answered: an
    /// unreachable vehicle is an error and nothing changes; otherwise the
    /// workers are to be started.
    pub fn startup(&mut self, reachable: bool) -> (r: Result<(), String>)
        requires
            old(self)@.phase == LinkPhase::Disconnected,
        ensures
            r is Ok <==> reachable,
            r is Err ==> final(self)@ == old(self)@ && r->Err_0@ == "Drone is not online!"@,
            r is Ok ==> final(self)@ == (DroneModel { phase: LinkPhase::Connecting, ..old(self)@ }),
    {
        if !reachable {
            return Err(String::from_str("Drone is not online!"));
        }
        self.phase = LinkPhase::Connecting;
        Ok(())
    }

    /// All three workers run: the link is connected and the initialisation
    /// commands are queued.
    pub fn workers_started(&mut self)
        requires
            old(self)@.phase == LinkPhase::Connecting,
        ensures
            final(self)@ == after_startup(DroneModel { phase: LinkPhase::Connected, ..old(self)@ }),
    {
        self.phase = LinkPhase::Connected;
        self.use_demo_mode(true);
        self.ctrl("5");
        self.set_config_str("custom:session_id", "-all");
        self.ctrl("5");
        self.update_config();
    }

    /// A worker failed to start and those already started were stopped: the
    /// link is back where it was before `startup`.
    pub fn workers_failed(&mut self)
        requires
            old(self)@.phase == LinkPhase::Connecting,
        ensures
            final(self)@ == (DroneModel { phase: LinkPhase::Disconnected, ..old(self)@ }),
    {
        self.phase = LinkPhase::Disconnected;
    }

    /// Begins the shutdown of a connected link and gives the order in which
    /// the workers are to be stopped: telemetry, configuration, then commands,
    /// so that keepalive traffic stops last. In any other phase there is
    /// nothing to stop.
    pub fn shutdown(&mut self) -> (r: Vec<Worker>)
        ensures
            old(self)@.phase == LinkPhase::Connected ==> r@ == seq![Worker::Telemetry, Worker::Config, Worker::Command]
                && final(self)@ == (DroneModel { phase: LinkPhase::ShuttingDown, ..old(self)@ }),
            old(self)@.phase != LinkPhase::Connected ==> r@.len() == 0 && final(self)@ == old(self)@,
    {
        let mut r: Vec<Worker> = Vec::new();
        if self.phase == LinkPhase::Connected {
            self.phase = LinkPhase::ShuttingDown;
            r.push(Worker::Telemetry);
            r.push(Worker::Config);
            r.push(Worker::Command);
            assert(r@ =~= seq![Worker::Telemetry, Worker::Config, Worker::Command]);
        }
        r
    }

    /// Every worker has stopped: the link is closed for good.
    pub fn shutdown_complete(&mut self)
        requires
            old(self)@.phase == LinkPhase::ShuttingDown,
        ensures
            final(self)@ == (DroneModel { phase: LinkPhase::Closed, ..old(self)@ }),
    {
        self.phase = LinkPhase::Closed;
    }

    fn ctrl(&mut self, mode: &str)
        ensures
            final(self)@ == issued(old(self)@, "CTRL"@, seq![mode@, "0"@]),
    {
        let p = list2(String::from_str(mode), String::from_str("0"));
        self.command("CTRL", p);
    }

    /// Tells the drone that it lies horizontal; only on the ground.
    pub fn trim(&mut self)
        ensures
            final(self)@ == issued(old(self)@, "FTRIM"@, Seq::empty()),
    {
        let p: Vec<String> = Vec::new();
        assert(p.deep_view() =~= Seq::<Seq<char>>::empty());
        self.command("FTRIM", p);
    }

    /// Calibrates the magnetometer.
    pub fn mtrim(&mut self)
        ensures
            final(self)@ == issued(old(self)@, "CALIB"@, seq!["0"@]),
    {
        let p = list1(String::from_str("0"));
        self.command("CALIB", p);
    }

    /// Trims the attitude by the given angles (each the bits of an f32).
    pub fn mantrim(&mut self, theta: u32, phi: u32, yaw: u32)
        ensures
            final(self)@ == issued(
                old(self)@,
                "MTRIM"@,
                seq![float_token(theta), float_token(phi), float_token(yaw)],
            ),
    {
        let p = list3(format_uint(theta), format_uint(phi), format_uint(yaw));
        self.command("MTRIM", p);
    }

    /// The basic move command. Each argument is the bits of an f32 speed in
    /// [-1, 1]: left to right, back to front, down to up, and turn rate left
    /// to right; larger magnitudes are clamped.
    pub fn mov(&mut self, left_right: u32, back_front: u32, down_up: u32, turn_left_right: u32)
        ensures
            final(self)@ == issued(old(self)@, "PCMD"@, pcmd_params(left_right, back_front, down_up, turn_left_right)),
    {
        let p = list5(format_int(3), format_uint(clamp(left_right)), format_uint(negate(clamp(back_front))), format_uint(clamp(down_up)), format_uint(clamp(turn_left_right)));
        self.command("PCMD", p);
    }

    /// Moves relative to the controller; arguments as for `mov`, then the
    /// east-west and north/accuracy components, all clamped.
    pub fn rel_mov(
        &mut self,
        left_right: u32,
        back_front: u32,
        down_up: u32,
        turn_left_right: u32,
        east_west: u32,
        north_ta_accuracy: u32,
    )
        ensures
            final(self)@ == issued(
                old(self)@,
                "PCMD_MAG"@,
                seq![
                    signed_decimal(1),
                    float_token(clamp_unit(left_right)),
                    float_token(negated(clamp_unit(back_front))),
                    float_token(clamp_unit(down_up)),
                    float_token(clamp_unit(turn_left_right)),
                    float_token(clamp_unit(east_west)),
                    float_token(clamp_unit(north_ta_accuracy)),
                ],
            ),
    {
        let p = list7(format_int(1), format_uint(clamp(left_right)), format_uint(negate(clamp(back_front))), format_uint(clamp(down_up)), format_uint(clamp(turn_left_right)), format_uint(clamp(east_west)), format_uint(clamp(north_ta_accuracy)));
        self.command("PCMD_MAG", p);
    }

    /// Stops all movement and turns.
    pub fn hover(&mut self)
        ensures
            final(self)@ == issued(old(self)@, "PCMD"@, pcmd_params(0, 0, 0, 0)),
    {
        self.mov(0, 0, 0, 0);
    }

    /// Same as `hover`.
    pub fn stop(&mut self)
        ensures
            final(self)@ == issued(old(self)@, "PCMD"@, pcmd_params(0, 0, 0, 0)),
    {
        self.hover();
    }

    /// Moves right at the given speed (bits of an f32 in [-1, 1]).
    pub fn mov_right(&mut self, speed: u32)
        ensures
            final(self)@ == issued(old(self)@, "PCMD"@, pcmd_params(speed, 0, 0, 0)),
    {
        self.mov(speed, 0, 0, 0);
    }

    /// Moves left at the given speed.
    pub fn mov_left(&mut self, speed: u32)
        ensures
            final(self)@ == issued(old(self)@, "PCMD"@, pcmd_params(negated(speed), 0, 0, 0)),
    {
        self.mov(negate(speed), 0, 0, 0);
    }

    /// Moves forward at the given speed.
    pub fn mov_forward(&mut self, speed: u32)
        ensures
            final(self)@ == issued(old(self)@, "PCMD"@, pcmd_params(0, speed, 0, 0)),
    {
        self.mov(0, speed, 0, 0);
    }

    /// Moves backward at the given speed.
    pub fn mov_backward(&mut self, speed: u32)
        ensures
            final(self)@ == issued(old(self)@, "PCMD"@, pcmd_params(0, negated(speed), 0, 0)),
    {
        self.mov(0, negate(speed), 0, 0);
    }

    /// Climbs at the given speed.
    pub fn mov_up(&mut self, speed: u32)
        ensures
            final(self)@ == issued(old(self)@, "PCMD"@, pcmd_params(0, 0, speed, 0)),
    {
        self.mov(0, 0, speed, 0);
    }

    /// Descends at the given speed.
    pub fn mov_down(&mut self, speed: u32)
        ensures
            final(self)@ == issued(old(self)@, "PCMD"@, pcmd_params(0, 0, negated(speed), 0)),
    {
        self.mov(0, 0, negate(speed), 0);
    }

    /// Moves right at the default speed.
    pub fn move_right(&mut self)
        ensures
            final(self)@ == issued(old(self)@, "PCMD"@, pcmd_params(old(self)@.speed, 0, 0, 0)),
    {
        self.mov(self.speed, 0, 0, 0);
    }

    /// Moves left at the default speed.
    pub fn move_left(&mut self)
        ensures
            final(self)@ == issued(old(self)@, "PCMD"@, pcmd_params(negated(old(self)@.speed), 0, 0, 0)),
    {
        self.mov(negate(self.speed), 0, 0, 0);
    }

    /// Moves forward at the default speed.
    pub fn move_forward(&mut self)
        ensures
            final(self)@ == issued(old(self)@, "PCMD"@, pcmd_params(0, old(self)@.speed, 0, 0)),
    {
        self.mov(0, self.speed, 0, 0);
    }

    /// Moves backward at the default speed.
    pub fn move_backward(&mut self)
        ensures
            final(self)@ == issued(old(self)@, "PCMD"@, pcmd_params(0, negated(old(self)@.speed), 0, 0)),
    {
        self.mov(0, negate(self.speed), 0, 0);
    }

    /// Climbs at the default speed.
    pub fn move_up(&mut self)
        ensures
            final(self)@ == issued(old(self)@, "PCMD"@, pcmd_params(0, 0, old(self)@.speed, 0)),
    {
        self.mov(0, 0, self.speed, 0);
    }

    /// Descends at the default speed.
    pub fn move_down(&mut self)
        ensures
            final(self)@ == issued(old(self)@, "PCMD"@, pcmd_params(0, 0, negated(old(self)@.speed), 0)),
    {
        self.mov(0, 0, negate(self.speed), 0);
    }

    /// Turns right at the given rate (bits of an f32 in [-1, 1]).
    pub fn turn_right(&mut self, turn_rate: u32)
        ensures
            final(self)@ == issued(old(self)@, "PCMD"@, pcmd_params(0, 0, 0, turn_rate)),
    {
        self.mov(0, 0, 0, turn_rate);
    }

    /// Turns left at the given rate.
    pub fn turn_left(&mut self, turn_rate: u32)
        ensures
            final(self)@ == issued(old(self)@, "PCMD"@, pcmd_params(0, 0, 0, negated(turn_rate))),
    {
        self.mov(0, 0, 0, negate(turn_rate));
    }

    /// Takes off.
    pub fn takeoff(&mut self)
        ensures
            final(self)@ == issued(old(self)@, "REF"@, seq!["290718208"@]),
    {
        let p = list1(String::from_str("290718208"));
        self.command("REF", p);
    }

    /// Lands.
    pub fn land(&mut self)
        ensures
            final(self)@ == issued(old(self)@, "REF"@, seq!["290717696"@]),
    {
        let p = list1(String::from_str("290717696"));
        self.command("REF", p);
    }

    /// Clears the emergency state left by a crash landing.
    pub fn reset(&mut self)
        ensures
            final(self)@ == issued(old(self)@, "REF"@, seq!["290717952"@]),
    {
        let p = list1(String::from_str("290717952"));
        self.command("REF", p);
    }

    /// Plays a preset LED animation (`anim` < 21) at a frequency (bits of an
    /// f32, above zero) for `duration` seconds (above zero); otherwise does
    /// nothing.
    pub fn led(&mut self, anim: usize, frequency: u32, duration: i32)
        ensures
            final(self)@ == if anim < LED_ANIMATION_COUNT && is_positive(frequency) && duration > 0 {
                issued(
                    old(self)@,
                    "LED"@,
                    seq![signed_decimal(anim as int), float_token(frequency), signed_decimal(duration as int)],
                )
            } else {
                old(self)@
            },
    {
        if anim < LED_ANIMATION_COUNT && 0 < frequency && frequency <= INFINITY_BITS && duration > 0 {
            let p = list3(format_int(anim as i32), format_uint(frequency), format_int(duration));
            self.command("LED", p);
        }
    }

    /// Performs a preset flight animation (`anim` < 20) for `duration`
    /// seconds (above zero); otherwise does nothing.
    pub fn anim(&mut self, anim: usize, duration: i32)
        ensures
            final(self)@ == if anim < ANIMATION_COUNT && duration > 0 {
                issued(old(self)@, "ANIM"@, seq![signed_decimal(anim as int), signed_decimal(duration as int)])
            } else {
                old(self)@
            },
    {
        if anim < ANIMATION_COUNT && duration > 0 {
            let p = list2(format_int(anim as i32), format_int(duration));
            self.command("ANIM", p);
        }
    }

    /// Sets the thrust of each engine directly: front-left, front-right,
    /// rear-left, rear-right, each capped at 1023.
    pub fn manual_engine(&mut self, fl: u32, fr: u32, rl: u32, rr: u32)
        ensures
            final(self)@ == issued(
                old(self)@,
                "PWM"@,
                seq![
                    signed_decimal(if fl > MAX_THRUST { MAX_THRUST as int } else { fl as int }),
                    signed_decimal(if fr > MAX_THRUST { MAX_THRUST as int } else { fr as int }),
                    signed_decimal(if rl > MAX_THRUST { MAX_THRUST as int } else { rl as int }),
                    signed_decimal(if rr > MAX_THRUST { MAX_THRUST as int } else { rr as int }),
                ],
            ),
    {
        let fl = if fl > MAX_THRUST { MAX_THRUST } else { fl };
        let fr = if fr > MAX_THRUST { MAX_THRUST } else { fr };
        let rl = if rl > MAX_THRUST { MAX_THRUST } else { rl };
        let rr = if rr > MAX_THRUST { MAX_THRUST } else { rr };
        let p = list4(format_int(fl as i32), format_int(fr as i32), format_int(rl as i32), format_int(rr as i32));
        self.command("PWM", p);
    }

    /// Follows 2D tags seen by the camera, or stops doing so.
    pub fn aflight(&mut self, flag: bool)
        ensures
            final(self)@ == issued(old(self)@, "AFLIGHT"@, seq![if flag { "1"@ } else { "0"@ }]),
    {
        let p = if flag {
            list1(String::from_str("1"))
        } else {
            list1(String::from_str("0"))
        };
        self.command("AFLIGHT", p);
    }

    /// Sets the default speed of the move commands (bits of an f32): its
    /// magnitude, capped at one.
    pub fn set_speed(&mut self, speed: u32)
        ensures
            final(self)@ == (DroneModel { speed: speed_of(speed), ..old(self)@ }),
    {
        if (speed & MAGNITUDE_MASK) > ONE_BITS && (speed & MAGNITUDE_MASK) <= INFINITY_BITS {
            self.speed = ONE_BITS;
        } else {
            self.speed = speed & MAGNITUDE_MASK;
        }
    }

    /// Asks the drone to send its configuration again.
    pub fn update_config(&mut self)
        ensures
            final(self)@ == issued(
                issued(old(self)@, "CTRL"@, seq!["5"@, "0"@]),
                "CTRL"@,
                seq!["4"@, "0"@],
            ),
    {
        self.ctrl("5");
        self.ctrl("4");
    }

    /// Sends the session, user and application ids.
    pub fn send_config_ids(&mut self)
        ensures
            final(self)@ == issued(
                old(self)@,
                "CONFIG_IDS"@,
                seq![
                    quoted(old(self)@.session_id),
                    quoted(old(self)@.user_id),
                    quoted(old(self)@.application_id),
                ],
            ),
    {
        let p = list3(format_string(self.session_id.clone()), format_string(self.user_id.clone()), format_string(self.application_id.clone()));
        self.command("CONFIG_IDS", p);
    }

    /// Sends one configuration value; nothing checks that it arrived.
    pub fn set_config(&mut self, config_name: &str, config_value: String)
        ensures
            final(self)@ == issued_config(old(self)@, config_name@, config_value@),
    {
        self.set_config_str(config_name, config_value.as_str());
    }

    /// Same as `set_config`, for a borrowed value.
    pub fn set_config_str(&mut self, config_name: &str, config_value: &str)
        ensures
            final(self)@ == issued_config(old(self)@, config_name@, config_value@),
    {
        let p = list2(format_str(config_name), format_str(config_value));
        self.command("CONFIG", p);
    }

    /// Switches the compact demo telemetry on or off.
    pub fn use_demo_mode(&mut self, value: bool)
        ensures
            final(self)@ == issued_config(
                old(self)@,
                "general:navdata_demo"@,
                if value { "TRUE"@ } else { "FALSE"@ },
            ),
    {
        if value {
            self.set_config_str("general:navdata_demo", "TRUE");
        } else {
            self.set_config_str("general:navdata_demo", "FALSE");
        }
    }

    /// Selects the codec used for streaming and recording.
    pub fn set_video_codec(&mut self, codec: VideoCodec)
        ensures
            final(self)@ == issued_config(old(self)@, "video:video_codec"@, codec_value(codec)),
    {
        let s = match codec {
            VideoCodec::MP4_360p => "128",
            VideoCodec::H264_360p => "129",
            VideoCodec::H264_720p => "131",
            VideoCodec::MP4_360pH264_720p => "130",
            VideoCodec::MP4_360pH264_360p => "136",
        };
        self.set_config_str("video:video_codec", s);
    }

    /// Streams HD (H264 720p) and records nothing.
    pub fn set_hd_video_stream(&mut self)
        ensures
            final(self)@ == issued_config(old(self)@, "video:video_codec"@, "131"@),
    {
        self.set_video_codec(VideoCodec::H264_720p);
    }

    /// Streams SD (H264 360p) and records nothing.
    pub fn set_sd_video_stream(&mut self)
        ensures
            final(self)@ == issued_config(old(self)@, "video:video_codec"@, "129"@),
    {
        self.set_video_codec(VideoCodec::H264_360p);
    }

    /// Streams SD (MP4 360p) and records nothing.
    pub fn set_mp4_video_stream(&mut self)
        ensures
            final(self)@ == issued_config(old(self)@, "video:video_codec"@, "128"@),
    {
        self.set_video_codec(VideoCodec::MP4_360p);
    }

    /// Streams SD (MP4 360p) and records HD (H264 720p).
    pub fn set_hd_video_capture(&mut self)
        ensures
            final(self)@ == issued_config(old(self)@, "video:video_codec"@, "130"@),
    {
        self.set_video_codec(VideoCodec::MP4_360pH264_720p);
    }

    /// Streams SD (MP4 360p) and records SD (H264 360p).
    pub fn set_sd_video_capture(&mut self)
        ensures
            final(self)@ == issued_config(old(self)@, "video:video_codec"@, "136"@),
    {
        self.set_video_codec(VideoCodec::MP4_360pH264_360p);
    }

    /// Sets the streaming frame rate; zero or above 60 gives 60.
    pub fn set_video_fps(&mut self, fps: u32)
        ensures
            final(self)@ == issued_config(
                old(self)@,
                "video:codec_fps"@,
                decimal(if fps > MAX_FPS || fps == 0 { MAX_FPS as nat } else { fps as nat }),
            ),
    {
        let real_fps = if fps > MAX_FPS || fps == 0 { MAX_FPS } else { fps };
        self.set_config("video:codec_fps", format_uint(real_fps));
    }

    /// Sets the streaming bitrate, kept within [250, 20000].
    pub fn set_video_bitrate(&mut self, bitrate: u32)
        ensures
            final(self)@ == issued_config(
                old(self)@,
                "video:bitrate"@,
                decimal(
                    if bitrate > MAX_BITRATE {
                        MAX_BITRATE as nat
                    } else if bitrate < MIN_BITRATE {
                        MIN_BITRATE as nat
                    } else {
                        bitrate as nat
                    },
                ),
            ),
    {
        let real_bitrate = if bitrate > MAX_BITRATE {
            MAX_BITRATE
        } else if bitrate < MIN_BITRATE {
            MIN_BITRATE
        } else {
            bitrate
        };
        self.set_config("video:bitrate", format_uint(real_bitrate));
    }

    /// Streams and records from the front camera.
    pub fn use_front_cam(&mut self)
        ensures
            final(self)@ == issued_config(old(self)@, "video:video_channel"@, "0"@),
    {
        self.set_config_str("video:video_channel", "0");
    }

    /// Streams and records from the ground camera.
    pub fn use_ground_cam(&mut self)
        ensures
            final(self)@ == issued_config(old(self)@, "video:video_channel"@, "1"@),
    {
        self.set_config_str("video:video_channel", "1");
    }

    /// Queues a command while connected; drops it otherwise.
    fn command(&mut self, name: &str, params: Vec<String>)
        ensures
            final(self)@ == issued(old(self)@, name@, params.deep_view()),
    {
        if self.phase == LinkPhase::Connected {
            let ghost before = self.outbox@;
            let c = Command::new(String::from_str(name), params);
            self.outbox.push(c);
            assert(self.outbox@.map_values(|c: Command| command_view(c)) =~= before.map_values(
                |c: Command| command_view(c),
            ).push((name@, params.deep_view())));
        }
    }

    /// Hands over the queued commands, oldest first, and empties the queue.
    pub fn take_commands(&mut self) -> (r: Vec<Command>)
        ensures
            r@.map_values(|c: Command| command_view(c)) == old(self)@.outbox,
            final(self)@ == (DroneModel { outbox: Seq::empty(), ..old(self)@ }),
    {
        let r = self.outbox.split_off(0);
        assert(r@ =~= old(self).outbox@);
        assert(self.outbox@.map_values(|c: Command| command_view(c)) =~= Seq::empty());
        r
    }
}

} // verus!
