use vstd::prelude::*;

use byteorder::{ByteOrder, LittleEndian};

use crate::format::digit_char;
use crate::option_map::OptionMap;

verus! {

/// A decoded telemetry value. Floating point values travel as their
/// IEEE-754 single precision bit pattern.
#[derive(Clone, Copy, PartialEq, Eq, Structural, Debug)]
pub enum NavDataValue {
    Int(i32),
    Uint(u32),
    Float(u32),
    Bool(bool),
}

impl NavDataValue {
    /// The same value.
    pub fn copy(&self) -> (r: NavDataValue)
        ensures
            r == *self,
    {
        *self
    }
}

/// A field of the demo telemetry block.
#[derive(Clone, Copy, PartialEq, Eq, Structural, Debug)]
pub enum DemoOptions {
    Default,
    Init,
    Landed,
    Flying,
    Hovering,
    Test,
    TransTakeoff,
    TransGoFix,
    TransLanding,
    TransLooping,
    TransNoVision,
    NumState,
    BatteryPercentage,
    Theta,
    Phi,
    Psi,
    Altitude,
    Vx,
    Vy,
    Vz,
    NumFrames,
    DetectionCameraRot(i32, i32),
    DetectionCameraTrans(i32),
    DetectionTagIndex,
    DetectionCameraType,
    DroneCameraRot(i32, i32),
    DroneCameraTrans(i32),
}

/// A group of telemetry fields: the packet header or the demo block.
#[derive(Clone, Copy, PartialEq, Eq, Structural, Debug)]
pub enum NavDataOption {
    Header,
    Demo(DemoOptions),
}

/// Why a telemetry packet was dropped.
#[derive(Clone, Copy, PartialEq, Eq, Structural, Debug)]
pub enum DecodeError {
    /// The buffer ends inside a field or an option block.
    Truncated,
    /// An option declares a size smaller than its own four byte header.
    BadOptionSize,
}

/// Length of the packet header: header word, drone state, sequence, vision flag.
pub const HEADER_LEN: usize = 16;

/// Length of the demo option block, its four byte option header included.
pub const DEMO_BLOCK_LEN: usize = 148;

/// Option id of the demo block.
pub const DEMO_OPTION_ID: u16 = 0;

/// Option id that ends the option list.
pub const SENTINEL_OPTION_ID: u16 = 0xFFFF;

/// Option id of the demo block, in specifications.
pub open spec fn demo_id() -> nat {
    DEMO_OPTION_ID as nat
}

/// Little-endian 16 bit unsigned integer at `p`.
pub open spec fn le_u16(b: Seq<u8>, p: int) -> nat {
    b[p] as nat + 256 * (b[p + 1] as nat)
}

/// Little-endian 32 bit unsigned integer at `p`.
pub open spec fn le_u32(b: Seq<u8>, p: int) -> nat {
    b[p] as nat + 256 * (b[p + 1] as nat) + 65536 * (b[p + 2] as nat) + 16777216 * (b[p + 3] as nat)
}

/// Little-endian 32 bit two's complement integer at `p`.
pub open spec fn le_i32(b: Seq<u8>, p: int) -> int {
    if le_u32(b, p) >= 0x8000_0000 {
        le_u32(b, p) - 0x1_0000_0000
    } else {
        le_u32(b, p) as int
    }
}

/// Relies on byteorder's `LittleEndian::read_u16`: the two bytes at `pos`,
/// least significant first.
#[verifier::external_body]
fn read_u16_at(buf: &[u8], pos: usize) -> (r: u16)
    requires
        pos + 2 <= buf@.len(),
    ensures
        r as nat == le_u16(buf@, pos as int),
{
    LittleEndian::read_u16(&buf[pos..])
}

/// Relies on byteorder's `LittleEndian::read_u32`: the four bytes at `pos`,
/// least significant first.
#[verifier::external_body]
fn read_u32_at(buf: &[u8], pos: usize) -> (r: u32)
    requires
        pos + 4 <= buf@.len(),
    ensures
        r as nat == le_u32(buf@, pos as int),
{
    LittleEndian::read_u32(&buf[pos..])
}

/// Relies on byteorder's `LittleEndian::read_i32`: the four bytes at `pos`,
/// least significant first, as two's complement.
#[verifier::external_body]
fn read_i32_at(buf: &[u8], pos: usize) -> (r: i32)
    requires
        pos + 4 <= buf@.len(),
    ensures
        r as int == le_i32(buf@, pos as int),
{
    LittleEndian::read_i32(&buf[pos..])
}

/// Division by ten rounding toward zero.
pub open spec fn div10_toward_zero(a: int) -> int {
    if a >= 0 {
        a / 10
    } else {
        -((-a) / 10)
    }
}

/// Name of the state flag at bit `15 + i` of the demo flags word.
pub open spec fn flag_name(i: int) -> Seq<char> {
    if i == 0 {
        "demo_default"@
    } else if i == 1 {
        "demo_init"@
    } else if i == 2 {
        "demo_landed"@
    } else if i == 3 {
        "demo_flying"@
    } else if i == 4 {
        "demo_hovering"@
    } else if i == 5 {
        "demo_test"@
    } else if i == 6 {
        "demo_trans_takeoff"@
    } else if i == 7 {
        "demo_trans_gofix"@
    } else if i == 8 {
        "demo_trans_landing"@
    } else if i == 9 {
        "demo_trans_looping"@
    } else if i == 10 {
        "demo_trans_no_vision"@
    } else {
        "demo_num_state"@
    }
}

/// Number of named state flags in the demo block.
pub const FLAG_COUNT: u32 = 12;

/// Bit of the demo flags word that holds the first named flag.
pub const FIRST_FLAG_BIT: u32 = 15;

pub open spec fn flag_set(flags: u32, i: int) -> bool {
    (flags >> ((FIRST_FLAG_BIT + i) as u32)) & 1u32 == 1u32
}

/// The state flags of the demo block as option entries.
pub open spec fn flag_entries(flags: u32) -> Seq<(Seq<char>, NavDataValue)> {
    Seq::new(FLAG_COUNT as nat, |i: int| (flag_name(i), NavDataValue::Bool(flag_set(flags, i))))
}

/// `n` float entries named `<prefix><i>`, read at `p`, `p + 4`, ...
pub open spec fn indexed_floats(prefix: Seq<char>, b: Seq<u8>, p: int, n: nat) -> Seq<(Seq<char>, NavDataValue)> {
    Seq::new(n, |i: int| (prefix.push(digit_char(i as nat)), NavDataValue::Float(le_u32(b, p + 4 * i) as u32)))
}

pub open spec fn uint_at(b: Seq<u8>, p: int) -> NavDataValue {
    NavDataValue::Uint(le_u32(b, p) as u32)
}

pub open spec fn float_at(b: Seq<u8>, p: int) -> NavDataValue {
    NavDataValue::Float(le_u32(b, p) as u32)
}

/// The entries of the demo block that starts (option id included) at `q`.
pub open spec fn demo_entries(b: Seq<u8>, q: int) -> Seq<(Seq<char>, NavDataValue)> {
    flag_entries(le_u32(b, q + 4) as u32) + seq![
        ("demo_battery"@, uint_at(b, q + 8)),
        ("demo_theta"@, float_at(b, q + 12)),
        ("demo_phi"@, float_at(b, q + 16)),
        ("demo_psi"@, float_at(b, q + 20)),
        ("demo_altitude"@, NavDataValue::Int(div10_toward_zero(le_i32(b, q + 24)) as i32)),
        ("demo_vx"@, float_at(b, q + 28)),
        ("demo_vy"@, float_at(b, q + 32)),
        ("demo_vz"@, float_at(b, q + 36)),
        ("demo_num_frames"@, uint_at(b, q + 40)),
    ] + indexed_floats("demo_det_cam_rot_"@, b, q + 44, 9) + indexed_floats(
        "demo_det_cam_trans_"@,
        b,
        q + 80,
        3,
    ) + seq![
        ("demo_detection_tag_index"@, uint_at(b, q + 92)),
        ("demo_detection_tag_type"@, uint_at(b, q + 96)),
    ] + indexed_floats("demo_cam_rot_"@, b, q + 100, 9) + indexed_floats(
        "demo_cam_trans_"@,
        b,
        q + 136,
        3,
    )
}

/// Prepends `acc` to a successful parse of the rest.
pub open spec fn prepend(
    acc: Seq<(Seq<char>, NavDataValue)>,
    r: Result<Seq<(Seq<char>, NavDataValue)>, DecodeError>,
) -> Result<Seq<(Seq<char>, NavDataValue)>, DecodeError> {
    match r {
        Ok(rest) => Ok(acc + rest),
        Err(e) => Err(e),
    }
}

/// The option blocks from `pos` on, up to the sentinel id or the end of the
/// buffer: the demo block is decoded, any other block is skipped by its
/// declared size.
pub open spec fn parse_options(b: Seq<u8>, pos: int) -> Result<Seq<(Seq<char>, NavDataValue)>, DecodeError>
    decreases b.len() - pos,
{
    if pos < 0 || pos > b.len() {
        Err(DecodeError::Truncated)
    } else if pos == b.len() {
        Ok(Seq::empty())
    } else if pos + 2 > b.len() {
        Err(DecodeError::Truncated)
    } else if le_u16(b, pos) == SENTINEL_OPTION_ID {
        Ok(Seq::empty())
    } else if pos + 4 > b.len() {
        Err(DecodeError::Truncated)
    } else if le_u16(b, pos) == demo_id() {
        if pos + DEMO_BLOCK_LEN > b.len() {
            Err(DecodeError::Truncated)
        } else {
            prepend(demo_entries(b, pos), parse_options(b, pos + DEMO_BLOCK_LEN))
        }
    } else if le_u16(b, pos + 2) < 4 {
        Err(DecodeError::BadOptionSize)
    } else if pos + le_u16(b, pos + 2) > b.len() {
        Err(DecodeError::Truncated)
    } else {
        parse_options(b, pos + le_u16(b, pos + 2))
    }
}

/// Model of a decoded packet.
pub struct PacketModel {
    pub header: u32,
    pub drone_state: u32,
    pub sequence: u32,
    pub vision_flag: u32,
    pub options: Seq<(Seq<char>, NavDataValue)>,
}

/// The packet that a buffer holds, or why it is dropped.
pub open spec fn decode(b: Seq<u8>) -> Result<PacketModel, DecodeError> {
    if b.len() < HEADER_LEN {
        Err(DecodeError::Truncated)
    } else {
        match parse_options(b, HEADER_LEN as int) {
            Ok(options) => Ok(
                PacketModel {
                    header: le_u32(b, 0) as u32,
                    drone_state: le_u32(b, 4) as u32,
                    sequence: le_u32(b, 8) as u32,
                    vision_flag: le_u32(b, 12) as u32,
                    options,
                },
            ),
            Err(e) => Err(e),
        }
    }
}

/// All option-set entries a packet carries, in the order they are merged.
pub open spec fn packet_entries(p: PacketModel) -> Seq<(Seq<char>, NavDataValue)> {
    seq![
        ("header_header"@, NavDataValue::Uint(p.header)),
        ("header_seq_num"@, NavDataValue::Uint(p.sequence)),
        ("header_drone_state"@, NavDataValue::Uint(p.drone_state)),
        ("header_flag"@, NavDataValue::Uint(p.vision_flag)),
    ] + p.options
}

/// The entries of a list of keyed values.
pub open spec fn entries_view(v: Seq<(String, NavDataValue)>) -> Seq<(Seq<char>, NavDataValue)> {
    Seq::new(v.len(), |i: int| (v[i].0@, v[i].1))
}

proof fn lemma_entries_view_push(v: Seq<(String, NavDataValue)>, e: (String, NavDataValue))
    ensures
        entries_view(v.push(e)) == entries_view(v).push((e.0@, e.1)),
{
    assert(entries_view(v.push(e)) =~= entries_view(v).push((e.0@, e.1)));
}

fn push_entry(out: &mut Vec<(String, NavDataValue)>, key: String, value: NavDataValue)
    ensures
        entries_view(final(out)@) == entries_view(old(out)@).push((key@, value)),
{
    proof {
        lemma_entries_view_push(out@, (key, value));
    }
    out.push((key, value));
}

fn push_named(out: &mut Vec<(String, NavDataValue)>, key: &str, value: NavDataValue)
    ensures
        entries_view(final(out)@) == entries_view(old(out)@).push((key@, value)),
{
    push_entry(out, String::from_str(key), value);
}

/// Key of the state flag at bit `15 + i`.
fn flag_key(i: u32) -> (r: &'static str)
    requires
        i < FLAG_COUNT,
    ensures
        r@ == flag_name(i as int),
{
    if i == 0 {
        "demo_default"
    } else if i == 1 {
        "demo_init"
    } else if i == 2 {
        "demo_landed"
    } else if i == 3 {
        "demo_flying"
    } else if i == 4 {
        "demo_hovering"
    } else if i == 5 {
        "demo_test"
    } else if i == 6 {
        "demo_trans_takeoff"
    } else if i == 7 {
        "demo_trans_gofix"
    } else if i == 8 {
        "demo_trans_landing"
    } else if i == 9 {
        "demo_trans_looping"
    } else if i == 10 {
        "demo_trans_no_vision"
    } else {
        "demo_num_state"
    }
}

fn push_flags(out: &mut Vec<(String, NavDataValue)>, flags: u32)
    ensures
        entries_view(final(out)@) == entries_view(old(out)@) + flag_entries(flags),
{
    let ghost start = entries_view(out@);
    let mut i: u32 = 0;
    while i < FLAG_COUNT
        invariant
            i <= FLAG_COUNT,
            entries_view(out@) == start + flag_entries(flags).subrange(0, i as int),
        decreases FLAG_COUNT - i,
    {
        let set = (flags >> (FIRST_FLAG_BIT + i)) & 1u32 == 1u32;
        push_named(out, flag_key(i), NavDataValue::Bool(set));
        i = i + 1;
        assert(entries_view(out@) =~= start + flag_entries(flags).subrange(0, i as int));
    }
    assert(flag_entries(flags).subrange(0, FLAG_COUNT as int) =~= flag_entries(flags));
}

fn push_indexed_floats(out: &mut Vec<(String, NavDataValue)>, buf: &[u8], p: usize, prefix: &str, n: usize)
    requires
        n < 10,
        p + 4 * n <= buf@.len(),
    ensures
        entries_view(final(out)@) == entries_view(old(out)@) + indexed_floats(prefix@, buf@, p as int, n as nat),
{
    let ghost start = entries_view(out@);
    let len = buf.len();
    let mut i: usize = 0;
    while i < n
        invariant
            len == buf@.len(),
            i <= n < 10,
            p + 4 * n <= buf@.len(),
            entries_view(out@) == start + indexed_floats(prefix@, buf@, p as int, n as nat).subrange(0, i as int),
        decreases n - i,
    {
        let bits = read_u32_at(buf, p + 4 * i);
        let mut key = String::from_str(prefix);
        let d = i as u8;
        key.append(digit_str(d));
        assert(key@ =~= prefix@.push(digit_char(i as nat)));
        push_entry(out, key, NavDataValue::Float(bits));
        i = i + 1;
        assert(entries_view(out@) =~= start + indexed_floats(prefix@, buf@, p as int, n as nat).subrange(0, i as int));
    }
    assert(indexed_floats(prefix@, buf@, p as int, n as nat).subrange(0, n as int) =~= indexed_floats(prefix@, buf@, p as int, n as nat));
}

/// Division by ten rounding toward zero, as Rust's `/` does.
fn div10(a: i32) -> (r: i32)
    ensures
        r as int == div10_toward_zero(a as int),
{
    if a >= 0 {
        a / 10
    } else {
        let mag: u64 = (0i64 - a as i64) as u64;
        let q: u64 = mag / 10;
        (0i64 - q as i64) as i32
    }
}

/// Appends the entries of the demo block that starts at `q`.
fn push_demo(out: &mut Vec<(String, NavDataValue)>, buf: &[u8], q: usize)
    requires
        q + DEMO_BLOCK_LEN <= buf@.len(),
    ensures
        entries_view(final(out)@) == entries_view(old(out)@) + demo_entries(buf@, q as int),
{
    let ghost start = entries_view(out@);
    let ghost b = buf@;
    let ghost qi = q as int;
    let len = buf.len();
    assert(q + DEMO_BLOCK_LEN <= len);
    let flags = read_u32_at(buf, q + 4);
    push_flags(out, flags);
    let ghost after_flags = entries_view(out@);
    push_named(out, "demo_battery", NavDataValue::Uint(read_u32_at(buf, q + 8)));
    push_named(out, "demo_theta", NavDataValue::Float(read_u32_at(buf, q + 12)));
    push_named(out, "demo_phi", NavDataValue::Float(read_u32_at(buf, q + 16)));
    push_named(out, "demo_psi", NavDataValue::Float(read_u32_at(buf, q + 20)));
    push_named(out, "demo_altitude", NavDataValue::Int(div10(read_i32_at(buf, q + 24))));
    push_named(out, "demo_vx", NavDataValue::Float(read_u32_at(buf, q + 28)));
    push_named(out, "demo_vy", NavDataValue::Float(read_u32_at(buf, q + 32)));
    push_named(out, "demo_vz", NavDataValue::Float(read_u32_at(buf, q + 36)));
    push_named(out, "demo_num_frames", NavDataValue::Uint(read_u32_at(buf, q + 40)));
    let ghost after_scalars = entries_view(out@);
    assert(after_scalars =~= after_flags + seq![
        ("demo_battery"@, uint_at(b, qi + 8)),
        ("demo_theta"@, float_at(b, qi + 12)),
        ("demo_phi"@, float_at(b, qi + 16)),
        ("demo_psi"@, float_at(b, qi + 20)),
        ("demo_altitude"@, NavDataValue::Int(div10_toward_zero(le_i32(b, qi + 24)) as i32)),
        ("demo_vx"@, float_at(b, qi + 28)),
        ("demo_vy"@, float_at(b, qi + 32)),
        ("demo_vz"@, float_at(b, qi + 36)),
        ("demo_num_frames"@, uint_at(b, qi + 40)),
    ]);
    push_indexed_floats(out, buf, q + 44, "demo_det_cam_rot_", 9);
    push_indexed_floats(out, buf, q + 80, "demo_det_cam_trans_", 3);
    let ghost after_det = entries_view(out@);
    push_named(out, "demo_detection_tag_index", NavDataValue::Uint(read_u32_at(buf, q + 92)));
    push_named(out, "demo_detection_tag_type", NavDataValue::Uint(read_u32_at(buf, q + 96)));
    assert(entries_view(out@) =~= after_det + seq![
        ("demo_detection_tag_index"@, uint_at(b, qi + 92)),
        ("demo_detection_tag_type"@, uint_at(b, qi + 96)),
    ]);
    push_indexed_floats(out, buf, q + 100, "demo_cam_rot_", 9);
    push_indexed_floats(out, buf, q + 136, "demo_cam_trans_", 3);
    assert(entries_view(out@) =~= start + demo_entries(b, qi));
}

/// A decoded telemetry packet.
pub struct Packet {
    pub header: u32,
    pub drone_state: u32,
    pub sequence: u32,
    pub vision_flag: u32,
    /// The option entries, in the order in which they are merged.
    pub options: Vec<(String, NavDataValue)>,
}

impl View for Packet {
    type V = PacketModel;

    open spec fn view(&self) -> PacketModel {
        PacketModel {
            header: self.header,
            drone_state: self.drone_state,
            sequence: self.sequence,
            vision_flag: self.vision_flag,
            options: entries_view(self.options@),
        }
    }
}

/// Decodes one telemetry packet: the 16 byte header, then option blocks up
/// to the sentinel id or the end of the buffer.
pub fn decode_packet(buf: &[u8]) -> (r: Result<Packet, DecodeError>)
    ensures
        match r {
            Ok(p) => decode(buf@) == Ok::<PacketModel, DecodeError>(p@),
            Err(e) => decode(buf@) == Err::<PacketModel, DecodeError>(e),
        },
{
    let len = buf.len();
    if len < HEADER_LEN {
        return Err(DecodeError::Truncated);
    }
    let header = read_u32_at(buf, 0);
    let drone_state = read_u32_at(buf, 4);
    let sequence = read_u32_at(buf, 8);
    let vision_flag = read_u32_at(buf, 12);
    let mut out: Vec<(String, NavDataValue)> = Vec::new();
    let mut pos: usize = HEADER_LEN;
    assert(entries_view(out@) =~= Seq::<(Seq<char>, NavDataValue)>::empty());
    assert(prepend(entries_view(out@), parse_options(buf@, pos as int)) =~= parse_options(buf@, HEADER_LEN as int));
    loop
        invariant
            len == buf@.len(),
            HEADER_LEN <= pos <= len,
            prepend(entries_view(out@), parse_options(buf@, pos as int)) == parse_options(buf@, HEADER_LEN as int),
        ensures
            parse_options(buf@, HEADER_LEN as int) == Ok::<Seq<(Seq<char>, NavDataValue)>, DecodeError>(entries_view(out@)),
        decreases len - pos,
    {
        if pos == len {
            assert(entries_view(out@) + Seq::empty() =~= entries_view(out@));
            break;
        }
        if len - pos < 2 {
            return Err(DecodeError::Truncated);
        }
        let id = read_u16_at(buf, pos);
        if id == SENTINEL_OPTION_ID {
            assert(entries_view(out@) + Seq::empty() =~= entries_view(out@));
            break;
        }
        if len - pos < 4 {
            return Err(DecodeError::Truncated);
        }
        if id == DEMO_OPTION_ID {
            if len - pos < DEMO_BLOCK_LEN {
                return Err(DecodeError::Truncated);
            }
            let ghost acc = entries_view(out@);
            push_demo(&mut out, buf, pos);
            proof {
                let rest = parse_options(buf@, pos + DEMO_BLOCK_LEN);
                if let Ok(t) = rest {
                    assert(acc + (demo_entries(buf@, pos as int) + t) =~= entries_view(out@) + t);
                }
            }
            pos = pos + DEMO_BLOCK_LEN;
        } else {
            let size = read_u16_at(buf, pos + 2);
            if size < 4 {
                return Err(DecodeError::BadOptionSize);
            }
            if len - pos < size as usize {
                return Err(DecodeError::Truncated);
            }
            pos = pos + size as usize;
        }
    }
    Ok(Packet { header, drone_state, sequence, vision_flag, options: out })
}

/// An option set after merging entries in order: later entries overwrite.
pub open spec fn merge(m: Map<Seq<char>, NavDataValue>, es: Seq<(Seq<char>, NavDataValue)>) -> Map<Seq<char>, NavDataValue>
    decreases es.len(),
{
    if es.len() == 0 {
        m
    } else {
        merge(m, es.drop_last()).insert(es.last().0, es.last().1)
    }
}

/// Model of the telemetry decoder's state: the option set and the highest
/// sequence number accepted so far.
pub struct NavDataModel {
    pub options: Map<Seq<char>, NavDataValue>,
    pub max_seq: nat,
}

/// The state after a packet arrives: a packet that decodes and carries a
/// sequence number above every one accepted so far is merged; any other
/// packet leaves the state as it was.
pub open spec fn ingest(s: NavDataModel, b: Seq<u8>) -> NavDataModel {
    match decode(b) {
        Ok(p) => if p.sequence > s.max_seq {
            NavDataModel { options: merge(s.options, packet_entries(p)), max_seq: p.sequence as nat }
        } else {
            s
        },
        Err(_) => s,
    }
}

/// The state after a run of packets.
pub open spec fn ingest_all(s: NavDataModel, ps: Seq<Seq<u8>>) -> NavDataModel
    decreases ps.len(),
{
    if ps.len() == 0 {
        s
    } else {
        ingest(ingest_all(s, ps.drop_last()), ps.last())
    }
}

/// Whether a buffer decodes to a packet with sequence number `n`.
pub open spec fn carries_sequence(b: Seq<u8>, n: nat) -> bool {
    decode(b) is Ok && decode(b)->Ok_0.sequence == n
}

/// A packet whose sequence number is not above the highest one accepted
/// leaves the option set unchanged; so does a packet that does not decode.
pub proof fn lemma_stale_packet_ignored(s: NavDataModel, b: Seq<u8>)
    requires
        decode(b) is Err || decode(b)->Ok_0.sequence <= s.max_seq,
    ensures
        ingest(s, b) == s,
{
}

/// After any run of packets, the highest sequence number accepted is the
/// maximum over the run, and the option set is exactly the one that merging
/// the packet carrying that maximum produced: nothing that came later, stale
/// or duplicate, has changed it.
pub proof fn lemma_freshest_packet_reflected(s: NavDataModel, ps: Seq<Seq<u8>>)
    ensures
        ingest_all(s, ps).max_seq >= s.max_seq,
        forall|i: int| 0 <= i < ps.len() && #[trigger] decode(ps[i]) is Ok ==> decode(ps[i])->Ok_0.sequence
            <= ingest_all(s, ps).max_seq,
        ingest_all(s, ps).max_seq == s.max_seq ==> ingest_all(s, ps) == s,
        ingest_all(s, ps).max_seq > s.max_seq ==> exists|i: int|
            0 <= i < ps.len() && carries_sequence(ps[i], ingest_all(s, ps).max_seq) && ingest_all(s, ps).options
                == #[trigger] merge(ingest_all(s, ps.take(i)).options, packet_entries(decode(ps[i])->Ok_0)),
    decreases ps.len(),
{
    if ps.len() > 0 {
        let pre = ps.drop_last();
        lemma_freshest_packet_reflected(s, pre);
        let mid = ingest_all(s, pre);
        let fin = ingest_all(s, ps);
        let last = ps.last();
        assert forall|i: int| 0 <= i < ps.len() && #[trigger] decode(ps[i]) is Ok implies decode(ps[i])->Ok_0.sequence
            <= fin.max_seq by {
            if i < pre.len() {
                assert(ps[i] == pre[i]);
            }
        }
        if fin != mid {
            let i = ps.len() - 1;
            assert(ps.take(i) =~= pre);
            assert(carries_sequence(ps[i], fin.max_seq));
        } else if fin.max_seq > s.max_seq {
            let i = choose|i: int|
                0 <= i < pre.len() && carries_sequence(pre[i], mid.max_seq) && mid.options
                    == #[trigger] merge(ingest_all(s, pre.take(i)).options, packet_entries(decode(pre[i])->Ok_0));
            assert(pre.take(i) =~= ps.take(i));
            assert(ps[i] == pre[i]);
        }
    }
}

/// An unknown option block is skipped by exactly its declared size: what
/// follows decodes as if the block had not been there.
pub proof fn lemma_unknown_option_skipped(b: Seq<u8>, pos: int)
    requires
        HEADER_LEN <= pos,
        pos + 4 <= b.len(),
        le_u16(b, pos) != demo_id(),
        le_u16(b, pos) != SENTINEL_OPTION_ID,
        le_u16(b, pos + 2) >= 4,
        pos + le_u16(b, pos + 2) <= b.len(),
    ensures
        parse_options(b, pos) == parse_options(b, pos + le_u16(b, pos + 2)),
{
}

/// The value that the last entry for `k` carries, if any.
pub open spec fn last_value(es: Seq<(Seq<char>, NavDataValue)>, k: Seq<char>) -> Option<NavDataValue>
    decreases es.len(),
{
    if es.len() == 0 {
        None
    } else if es.last().0 == k {
        Some(es.last().1)
    } else {
        last_value(es.drop_last(), k)
    }
}

proof fn lemma_merge_lookup(m: Map<Seq<char>, NavDataValue>, es: Seq<(Seq<char>, NavDataValue)>, k: Seq<char>)
    ensures
        merge(m, es).contains_key(k) <==> (last_value(es, k) is Some || m.contains_key(k)),
        last_value(es, k) is Some ==> merge(m, es)[k] == last_value(es, k)->Some_0,
        last_value(es, k) is None && m.contains_key(k) ==> merge(m, es)[k] == m[k],
    decreases es.len(),
{
    if es.len() > 0 {
        lemma_merge_lookup(m, es.drop_last(), k);
    }
}

/// A query answered after a fresh packet that sets `key` gives the value the
/// packet set; a key that neither the packet nor any earlier accepted packet
/// set stays absent.
pub proof fn lemma_query_after_packet(s: NavDataModel, b: Seq<u8>, key: Seq<char>)
    requires
        decode(b) is Ok,
        decode(b)->Ok_0.sequence > s.max_seq,
    ensures
        last_value(packet_entries(decode(b)->Ok_0), key) is Some ==> ingest(s, b).options.contains_key(key)
            && ingest(s, b).options[key] == last_value(packet_entries(decode(b)->Ok_0), key)->Some_0,
        last_value(packet_entries(decode(b)->Ok_0), key) is None && !s.options.contains_key(key)
            ==> !ingest(s, b).options.contains_key(key),
{
    lemma_merge_lookup(s.options, packet_entries(decode(b)->Ok_0), key);
}

/// The telemetry decoder's state: the option set merged from accepted
/// packets and the highest sequence number accepted.
pub struct NavData {
    options: OptionMap<NavDataValue>,
    max_seq: u32,
}

impl View for NavData {
    type V = NavDataModel;

    closed spec fn view(&self) -> NavDataModel {
        NavDataModel { options: self.options@, max_seq: self.max_seq as nat }
    }
}

impl NavData {
    pub closed spec fn wf(&self) -> bool {
        self.options.wf()
    }

    /// A decoder that has accepted nothing.
    pub fn new() -> (r: NavData)
        ensures
            r.wf(),
            r@ == (NavDataModel { options: Map::empty(), max_seq: 0 }),
    {
        NavData { options: OptionMap::new(), max_seq: 0 }
    }

    /// The datagram that asks the drone for demo telemetry, sent once the
    /// telemetry socket is bound.
    pub fn activation_datagram() -> (r: Vec<u8>)
        ensures
            r@ == seq![1u8, 0u8, 0u8, 0u8],
    {
        let mut r: Vec<u8> = Vec::new();
        r.push(1);
        r.push(0);
        r.push(0);
        r.push(0);
        assert(r@ =~= seq![1u8, 0u8, 0u8, 0u8]);
        r
    }

    fn merge_entries(&mut self, es: Vec<(String, NavDataValue)>)
        requires
            old(self).wf(),
        ensures
            final(self).wf(),
            final(self)@ == (NavDataModel {
                options: merge(old(self)@.options, entries_view(es@)),
                max_seq: old(self)@.max_seq,
            }),
    {
        let ghost start = old(self)@.options;
        let ghost all = entries_view(es@);
        let mut i: usize = 0;
        while i < es.len()
            invariant
                i <= es@.len(),
                all == entries_view(es@),
                self.wf(),
                self@ == (NavDataModel { options: merge(start, all.subrange(0, i as int)), max_seq: old(self)@.max_seq }),
            decreases es@.len() - i,
        {
            let key = es[i].0.clone();
            self.options.insert(key, es[i].1);
            proof {
                assert(all.subrange(0, i + 1).drop_last() =~= all.subrange(0, i as int));
            }
            i = i + 1;
        }
        assert(all.subrange(0, es@.len() as int) =~= all);
    }

    /// The value last merged under `name`, if any.
    pub fn get_navdata_str(&self, name: &str) -> (r: Option<NavDataValue>)
        requires
            self.wf(),
        ensures
            r == (if self@.options.contains_key(name@) {
                Some(self@.options[name@])
            } else {
                None
            }),
    {
        match self.options.get(name) {
            Some(v) => Some(*v),
            None => None,
        }
    }

    /// Same as `get_navdata_str`, for an owned name.
    pub fn get_navdata(&self, name: String) -> (r: Option<NavDataValue>)
        requires
            self.wf(),
        ensures
            r == (if self@.options.contains_key(name@) {
                Some(self@.options[name@])
            } else {
                None
            }),
    {
        self.get_navdata_str(name.as_str())
    }

    /// Applies one received buffer. A packet that does not decode gives its
    /// decode error; otherwise the result says whether it was fresh enough to
    /// be merged.
    pub fn ingest(&mut self, buf: &[u8]) -> (r: Result<bool, DecodeError>)
        requires
            old(self).wf(),
        ensures
            final(self).wf(),
            final(self)@ == ingest(old(self)@, buf@),
            match r {
                Ok(accepted) => decode(buf@) is Ok && accepted == (decode(buf@)->Ok_0.sequence
                    > old(self)@.max_seq),
                Err(e) => decode(buf@) == Err::<PacketModel, DecodeError>(e),
            },
    {
        match decode_packet(buf) {
            Ok(p) => {
                if p.sequence > self.max_seq {
                    let ghost pm = p@;
                    let mut es: Vec<(String, NavDataValue)> = Vec::new();
                    push_named(&mut es, "header_header", NavDataValue::Uint(p.header));
                    push_named(&mut es, "header_seq_num", NavDataValue::Uint(p.sequence));
                    push_named(&mut es, "header_drone_state", NavDataValue::Uint(p.drone_state));
                    push_named(&mut es, "header_flag", NavDataValue::Uint(p.vision_flag));
                    let ghost head = entries_view(es@);
                    let ghost before = es@;
                    let mut opts = p.options;
                    let ghost ov = opts@;
                    assert(pm.options == entries_view(ov));
                    es.append(&mut opts);
                    assert(es@ == before + ov);
                    assert(entries_view(before + ov) =~= entries_view(before) + entries_view(ov));
                    assert(head =~= seq![
                        ("header_header"@, NavDataValue::Uint(pm.header)),
                        ("header_seq_num"@, NavDataValue::Uint(pm.sequence)),
                        ("header_drone_state"@, NavDataValue::Uint(pm.drone_state)),
                        ("header_flag"@, NavDataValue::Uint(pm.vision_flag)),
                    ]);
                    assert(entries_view(es@) =~= packet_entries(pm));
                    self.merge_entries(es);
                    self.max_seq = p.sequence;
                    Ok(true)
                } else {
                    Ok(false)
                }
            },
            Err(e) => Err(e),
        }
    }
}

/// A decimal digit as a one character string.
fn digit_str(d: u8) -> (r: &'static str)
    requires
        d < 10,
    ensures
        r@ == seq![digit_char(d as nat)],
{
    proof {
        reveal_strlit("0");
        reveal_strlit("1");
        reveal_strlit("2");
        reveal_strlit("3");
        reveal_strlit("4");
        reveal_strlit("5");
        reveal_strlit("6");
        reveal_strlit("7");
        reveal_strlit("8");
        reveal_strlit("9");
    }
    let r = if d == 0 {
        "0"
    } else if d == 1 {
        "1"
    } else if d == 2 {
        "2"
    } else if d == 3 {
        "3"
    } else if d == 4 {
        "4"
    } else if d == 5 {
        "5"
    } else if d == 6 {
        "6"
    } else if d == 7 {
        "7"
    } else if d == 8 {
        "8"
    } else {
        "9"
    };
    assert(r@ =~= seq![digit_char(d as nat)]);
    r
}

} // verus!
