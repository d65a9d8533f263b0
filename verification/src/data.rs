//! The records that the robot and its server exchange.
use vstd::prelude::*;

verus! {

/// The kinds of request that the robot makes of its server.
#[derive(Debug, Clone, Copy, PartialEq, Eq, Structural)]
pub enum RequestType {
    Move,
}

/// One telemetry sample of the robot: its position (mm) and bearing (degrees),
/// its four proximity alarms and the distance that its radar measures.
#[derive(Debug, Clone, Copy, PartialEq, Eq, Structural)]
pub struct DeskoveryData {
    pub x: i32,
    pub y: i32,
    pub th: i32,
    pub ps1: bool,
    pub ps2: bool,
    pub ps3: bool,
    pub ps4: bool,
    pub dto: i32,
}

impl Default for DeskoveryData {
    fn default() -> (r: Self)
        ensures
            r == (DeskoveryData {
                x: 0,
                y: 0,
                th: 0,
                ps1: false,
                ps2: false,
                ps3: false,
                ps4: false,
                dto: 0,
            }),
    {
        DeskoveryData { x: 0, y: 0, th: 0, ps1: false, ps2: false, ps3: false, ps4: false, dto: 0 }
    }
}

/// What the server tells the robot: the controller's two axes and four buttons.
#[derive(Debug, Clone, Copy, PartialEq, Eq, Structural)]
pub struct ServerData {
    pub x: i32,
    pub y: i32,
    pub b1: bool,
    pub b2: bool,
    pub b3: bool,
    pub b4: bool,
}

/// The proximity sensors' state that the firmware's C code keeps: the alarm
/// threshold, the four alarms, their summary, and the raw dark and lit readings.
#[derive(Debug, Clone, Copy, PartialEq, Eq)]
#[allow(non_snake_case)]
pub struct PrxData {
    pub alarmRatio10: i32,
    pub alarms: [bool; 4],
    pub alarm: bool,
    pub darkResponse: [i32; 4],
    pub lightResponse: [i32; 4],
}

/// Size of the C struct in bytes (as laid out for the firmware's 32-bit target).
pub const PRX_DATA_SIZE: usize = 44;

/// Byte offsets of the fields of the C struct.
pub const ALARM_RATIO_OFFSET: usize = 0;
pub const ALARMS_OFFSET: usize = 4;
pub const ALARM_OFFSET: usize = 8;
pub const DARK_RESPONSE_OFFSET: usize = 12;
pub const LIGHT_RESPONSE_OFFSET: usize = 28;

/// The little-endian 32-bit integer stored at `b[at..at + 4]`.
pub open spec fn le_i32(b: Seq<u8>, at: int) -> i32 {
    (b[at] + 256 * b[at + 1] + 65536 * b[at + 2] + 16777216 * b[at + 3]) as i32
}

/// A C `bool` byte.
pub open spec fn c_bool(b: u8) -> bool {
    b != 0
}

/// The C struct stored in `b`: each field read at its offset.
pub open spec fn prx_image_holds(b: Seq<u8>, p: PrxData) -> bool {
    &&& p.alarmRatio10 == le_i32(b, ALARM_RATIO_OFFSET as int)
    &&& forall|i: int| 0 <= i < 4 ==> p.alarms@[i] == c_bool(#[trigger] b[ALARMS_OFFSET + i])
    &&& p.alarm == c_bool(b[ALARM_OFFSET as int])
    &&& forall|i: int| 0 <= i < 4 ==> p.darkResponse@[i] == le_i32(b, DARK_RESPONSE_OFFSET + 4 * i)
    &&& forall|i: int| 0 <= i < 4 ==> p.lightResponse@[i] == le_i32(b, LIGHT_RESPONSE_OFFSET + 4 * i)
}

fn read_i32(b: &[u8], at: usize) -> (r: i32)
    requires
        at + 4 <= b@.len(),
    ensures
        r == le_i32(b@, at as int),
{
    let len = b.len();
    let v: u32 = b[at] as u32 + 256 * (b[at + 1] as u32) + 65536 * (b[at + 2] as u32) + 16777216 * (
    b[at + 3] as u32);
    v as i32
}

fn read_i32s(b: &[u8], at: usize) -> (r: [i32; 4])
    requires
        at + 16 <= b@.len(),
    ensures
        forall|i: int| 0 <= i < 4 ==> r@[i] == le_i32(b@, at + 4 * i),
{
    let len = b.len();
    let r = [read_i32(b, at), read_i32(b, at + 4), read_i32(b, at + 8), read_i32(b, at + 12)];
    assert(forall|i: int| 0 <= i < 4 ==> r@[i] == le_i32(b@, at + 4 * i)) by {
        assert(r@[0] == le_i32(b@, at as int));
        assert(r@[1] == le_i32(b@, at + 4));
        assert(r@[2] == le_i32(b@, at + 8));
        assert(r@[3] == le_i32(b@, at + 12));
    }
    r
}

impl PrxData {
    /// Reads the struct from its C image (the bytes of the firmware's `prxData`).
    pub fn from_c_bytes(bytes: &[u8]) -> (p: PrxData)
        requires
            bytes@.len() == PRX_DATA_SIZE,
        ensures
            prx_image_holds(bytes@, p),
    {
        let alarms = [
            bytes[ALARMS_OFFSET] != 0,
            bytes[ALARMS_OFFSET + 1] != 0,
            bytes[ALARMS_OFFSET + 2] != 0,
            bytes[ALARMS_OFFSET + 3] != 0,
        ];
        let p = PrxData {
            alarmRatio10: read_i32(bytes, ALARM_RATIO_OFFSET),
            alarms,
            alarm: bytes[ALARM_OFFSET] != 0,
            darkResponse: read_i32s(bytes, DARK_RESPONSE_OFFSET),
            lightResponse: read_i32s(bytes, LIGHT_RESPONSE_OFFSET),
        };
        assert(forall|i: int| 0 <= i < 4 ==> p.alarms@[i] == c_bool(#[trigger] bytes@[ALARMS_OFFSET + i])) by {
            assert(p.alarms@[0] == c_bool(bytes@[4]));
            assert(p.alarms@[1] == c_bool(bytes@[5]));
            assert(p.alarms@[2] == c_bool(bytes@[6]));
            assert(p.alarms@[3] == c_bool(bytes@[7]));
        }
        p
    }
}

} // verus!
