//! The robot's own decisions: how hard to drive its motors, what its dashboard
//! shows, and which telemetry samples it keeps for the server.
use vstd::prelude::*;
use vstd::string::StringSliceAdditionalSpecFns;
use crate::data::{DeskoveryData, PrxData, ServerData};
use crate::text::{
    all_digits, decimal, decimal_bytes, digits_value, law_decimal_reads_back, lemma_decimal_digits,
    lemma_decimal_len, lemma_decimal_len_lower, pow10,
};

verus! {

// Display colours (RGB565).
pub const BLACK: u16 = 0x0000;
pub const NAVY: u16 = 0x000F;
pub const DARKGREEN: u16 = 0x03E0;
pub const LIGHTGREY: u16 = 0xC618;
pub const BLUE: u16 = 0x001F;
pub const RED: u16 = 0xF800;
pub const WHITE: u16 = 0xFFFF;
pub const GREENYELLOW: u16 = 0xAFE5;

pub open spec fn abs(v: int) -> int {
    if v < 0 {
        -v
    } else {
        v
    }
}

// ------------------------------------------------------------------
// Motors

/// The motor power for a controller axis: nothing within 50 of the centre, else
/// 200 plus half of the excess, against the direction of the axis.
pub open spec fn motor_power(axis: int) -> int {
    let v = abs(axis);
    if v < 50 {
        0
    } else if axis > 0 {
        -(200 + (v - 50) * 500 / 1000)
    } else {
        200 + (v - 50) * 500 / 1000
    }
}

/// An axis value for which the power can be computed in 32 bits.
pub open spec fn motor_input_ok(axis: int) -> bool {
    &&& i32::MIN < axis
    &&& (abs(axis) < 50 || (abs(axis) - 50) * 500 <= i32::MAX)
}

/// Whether the motor power for `axis` can be computed in 32 bits.
pub fn motor_input_fits(axis: i32) -> (r: bool)
    ensures
        r == motor_input_ok(axis as int),
{
    if axis == i32::MIN {
        return false;
    }
    let v = if axis < 0 {
        -axis
    } else {
        axis
    };
    v < 50 || (v - 50) <= i32::MAX / 500
}

/// The motor power for a controller axis.
pub fn adjust_motor(controller_axis: i32) -> (r: i32)
    requires
        motor_input_ok(controller_axis as int),
    ensures
        r == motor_power(controller_axis as int),
{
    let v = if controller_axis < 0 {
        -controller_axis
    } else {
        controller_axis
    };
    if v < 50 {
        0
    } else {
        let magnitude = 200 + (v - 50) * 500 / 1000;
        if controller_axis > 0 {
            -magnitude
        } else {
            magnitude
        }
    }
}

/// The powers of the left and right motors for what the server sent.
pub fn motor_powers(data: &ServerData) -> (r: (i32, i32))
    requires
        motor_input_ok(data.x as int),
        motor_input_ok(data.y as int),
    ensures
        r.0 == motor_power(data.x as int),
        r.1 == motor_power(data.y as int),
{
    (adjust_motor(data.x), adjust_motor(data.y))
}

/// Law: the motors stay still while the axis is within 50 of its centre.
pub proof fn law_motor_dead_zone(axis: int)
    requires
        abs(axis) < 50,
    ensures
        motor_power(axis) == 0,
{
}

/// Law: opposite axis values give opposite powers.
pub proof fn law_motor_symmetric(axis: int)
    ensures
        motor_power(-axis) == -motor_power(axis),
{
}

/// Law: the power never rises as the axis rises.
pub proof fn law_motor_monotonic(a: int, b: int)
    requires
        a <= b,
    ensures
        motor_power(b) <= motor_power(a),
{
    if abs(a) >= 50 && abs(b) >= 50 && a > 0 && b > 0 {
        assert((a - 50) * 500 / 1000 <= (b - 50) * 500 / 1000) by (nonlinear_arith)
            requires
                50 <= a <= b,
        ;
    }
    if abs(a) >= 50 && abs(b) >= 50 && a < 0 && b < 0 {
        assert((-b - 50) * 500 / 1000 <= (-a - 50) * 500 / 1000) by (nonlinear_arith)
            requires
                a <= b <= -50,
        ;
    }
}

/// Law: a motor is either off or driven with a power of at least 200.
pub proof fn law_motor_minimum_power(axis: int)
    ensures
        motor_power(axis) == 0 || abs(motor_power(axis)) >= 200,
{
    if abs(axis) >= 50 {
        assert((abs(axis) - 50) * 500 / 1000 >= 0) by (nonlinear_arith)
            requires
                abs(axis) >= 50,
        ;
    }
}

// ------------------------------------------------------------------
// Dashboard text

/// The text of a number: its decimal digits, with a minus sign before a negative
/// number of fewer than ten digits.
pub open spec fn number_text(v: int) -> Seq<u8> {
    let d = decimal(abs(v) as nat);
    if v < 0 && d.len() < 10 {
        seq![45u8] + d
    } else {
        d
    }
}

/// The text shown for a value in a field of `data_len` characters: the number,
/// padded with spaces, or cut to the field.
pub open spec fn value_text(v: int, data_len: nat) -> Seq<u8> {
    Seq::new(data_len, |k: int| if k < number_text(v).len() { number_text(v)[k] } else { 32u8 })
}

/// A value that can be shown in a field of `data_len` characters.
pub open spec fn value_fits(v: int, data_len: nat) -> bool {
    &&& i32::MIN < v <= i32::MAX
    &&& data_len <= 10 + number_text(v).len()
}

/// The text of a 32-bit number is one to ten characters long.
pub proof fn lemma_number_text_len(v: int)
    requires
        i32::MIN < v <= i32::MAX,
    ensures
        1 <= number_text(v).len() <= 10,
{
    reveal_with_fuel(pow10, 11);
    assert(pow10(10) == 10000000000nat);
    lemma_decimal_len(abs(v) as nat, 10);
    lemma_decimal_digits(abs(v) as nat);
}

/// Law: a field at least as wide as the number shows all of it, left-aligned and
/// padded with spaces; a non-negative number shows as its plain decimal digits.
pub proof fn law_value_text_shows_whole_number(v: int, data_len: nat)
    requires
        data_len >= number_text(v).len(),
    ensures
        value_text(v, data_len).take(number_text(v).len() as int) == number_text(v),
        forall|k: int| number_text(v).len() <= k < data_len ==> #[trigger] value_text(v, data_len)[k] == 32u8,
        v >= 0 ==> number_text(v) == decimal(v as nat),
{
    assert(value_text(v, data_len).take(number_text(v).len() as int) =~= number_text(v));
}

/// Law: the text of a 32-bit number reads back as the number. A non-negative
/// number is its decimal digits; a negative number above -10^9 is a minus sign and
/// the digits of its magnitude; a negative number of ten digits is shown by its
/// digits alone, as the field has no room left for the sign.
pub proof fn law_number_text_reads_back(v: int)
    requires
        i32::MIN < v <= i32::MAX,
    ensures
        v >= 0 ==> all_digits(number_text(v)) && digits_value(number_text(v)) == v,
        (v < 0 && -v < 1000000000) ==> {
            &&& number_text(v) == seq![45u8] + decimal((-v) as nat)
            &&& number_text(v)[0] == 45u8
            &&& all_digits(number_text(v).drop_first())
            &&& digits_value(number_text(v).drop_first()) == -v
        },
        (v < 0 && -v >= 1000000000) ==> all_digits(number_text(v)) && digits_value(number_text(v)) == -v,
{
    let m = abs(v) as nat;
    law_decimal_reads_back(m);
    reveal_with_fuel(pow10, 11);
    assert(pow10(9) == 1000000000nat);
    if v < 0 && -v < 1000000000 {
        lemma_decimal_len(m, 9);
        assert((seq![45u8] + decimal(m)).drop_first() =~= decimal(m));
    } else if v < 0 {
        lemma_decimal_len_lower(m, 9);
    }
}

/// The text that shows `value` in a field of `data_len` characters.
pub fn output_value(value: i32, data_len: usize) -> (text: Vec<u8>)
    requires
        value_fits(value as int, data_len as nat),
    ensures
        text@ == value_text(value as int, data_len as nat),
{
    proof {
        lemma_number_text_len(value as int);
    }
    let magnitude: u64 = if value < 0 {
        (-value) as u64
    } else {
        value as u64
    };
    let digits = decimal_bytes(magnitude);
    let mut number: Vec<u8> = Vec::new();
    if value < 0 && digits.len() < 10 {
        number.push(45u8);
    }
    let ghost prefix = number@;
    let mut i: usize = 0;
    while i < digits.len()
        invariant
            i <= digits@.len(),
            number@ == prefix + digits@.take(i as int),
        decreases digits@.len() - i,
    {
        number.push(digits[i]);
        i += 1;
        assert(number@ =~= prefix + digits@.take(i as int));
    }
    assert(digits@.take(digits@.len() as int) =~= digits@);
    assert(number@ =~= number_text(value as int));
    let mut text: Vec<u8> = Vec::new();
    let mut k: usize = 0;
    while k < data_len
        invariant
            k <= data_len,
            number@ == number_text(value as int),
            text@.len() == k,
            forall|m: int| 0 <= m < k ==> #[trigger] text@[m] == value_text(value as int, data_len as nat)[m],
        decreases data_len - k,
    {
        if k < number.len() {
            text.push(number[k]);
        } else {
            text.push(32u8);
        }
        k += 1;
    }
    assert(text@ =~= value_text(value as int, data_len as nat));
    text
}

/// Text to be drawn on the display at `(x, y)`.
#[derive(Debug, PartialEq, Eq)]
pub struct TextDraw {
    pub x: u16,
    pub y: u16,
    pub text: Vec<u8>,
    pub color: u16,
    pub bg_color: u16,
    pub size: u8,
}

/// The meaning of a [`TextDraw`].
pub struct TextView {
    pub x: u16,
    pub y: u16,
    pub text: Seq<u8>,
    pub color: u16,
    pub bg_color: u16,
    pub size: u8,
}

impl View for TextDraw {
    type V = TextView;

    open spec fn view(&self) -> TextView {
        TextView {
            x: self.x,
            y: self.y,
            text: self.text@,
            color: self.color,
            bg_color: self.bg_color,
            size: self.size,
        }
    }
}

/// Where the value of a data line starts: after the label, six pixels per
/// character at size 1.
pub open spec fn value_x(x: u16, label_len: nat, size: u8) -> int {
    x + (label_len as u16) * 6 * size
}

/// The position of the value of a data line can be computed in 16 bits.
pub open spec fn line_fits(x: u16, label_len: nat, size: u8) -> bool {
    &&& (label_len as u16) * 6 <= u16::MAX
    &&& (label_len as u16) * 6 * size <= u16::MAX
    &&& value_x(x, label_len, size) <= u16::MAX
}

/// The two texts of a data line: the label, then the value right after it.
pub open spec fn data_line(
    x: u16,
    y: u16,
    label: Seq<u8>,
    value: int,
    data_len: nat,
    color: u16,
    bg_color: u16,
    size: u8,
) -> (TextView, TextView) {
    (
        TextView { x, y, text: label, color, bg_color, size },
        TextView {
            x: value_x(x, label.len(), size) as u16,
            y,
            text: value_text(value, data_len),
            color,
            bg_color,
            size,
        },
    )
}

/// A labelled value on the display: the label at `(x, y)` and the value after it.
pub fn output_data_line(
    x: u16,
    y: u16,
    label: &str,
    value: i32,
    data_len: usize,
    color: u16,
    bg_color: u16,
    size: u8,
) -> (r: (TextDraw, TextDraw))
    requires
        line_fits(x, label.spec_bytes().len(), size),
        value_fits(value as int, data_len as nat),
    ensures
        (r.0@, r.1@) == data_line(x, y, label.spec_bytes(), value as int, data_len as nat, color, bg_color, size),
{
    let label_bytes = label.as_bytes();
    let label_draw = TextDraw {
        x,
        y,
        text: vstd::slice::slice_to_vec(label_bytes),
        color,
        bg_color,
        size,
    };
    let value_draw = TextDraw {
        x: x + label_bytes.len() as u16 * 6 * size as u16,
        y,
        text: output_value(value, data_len),
        color,
        bg_color,
        size,
    };
    (label_draw, value_draw)
}

/// The colour of a proximity alarm: red when it is raised, green-yellow when not.
pub fn alarm_color(prx: &PrxData, alarm_idx: u32) -> (c: u16)
    requires
        alarm_idx < 4,
    ensures
        c == (if prx.alarms@[alarm_idx as int] { RED } else { GREENYELLOW }),
{
    if prx.alarms[alarm_idx as usize] {
        RED
    } else {
        GREENYELLOW
    }
}

/// The background of the radar reading: grey without an echo (-1), red up to 300,
/// blue up to 500, navy beyond (and for other negative readings).
pub open spec fn radar_color_of(range: int) -> u16 {
    if range == -1 {
        LIGHTGREY
    } else if 0 <= range <= 300 {
        RED
    } else if 301 <= range <= 500 {
        BLUE
    } else {
        NAVY
    }
}

pub fn radar_color(range: i32) -> (c: u16)
    ensures
        c == radar_color_of(range as int),
{
    match range {
        -1 => LIGHTGREY,
        0..=300 => RED,
        301..=500 => BLUE,
        _ => NAVY,
    }
}

/// A filled rectangle to be drawn on the display.
#[derive(Debug, Clone, Copy, PartialEq, Eq, Structural)]
pub struct RectDraw {
    pub x0: u16,
    pub y0: u16,
    pub x1: u16,
    pub y1: u16,
    pub color: u16,
}

/// What the dashboard shows: the motor powers, the radar reading, the position and
/// bearing, and the proximity sensors with the slots of the alarms that the four
/// squares show (back right, back left, front right, front left).
#[derive(Debug, Clone, Copy)]
pub struct Dashboard {
    pub left_motor: i32,
    pub right_motor: i32,
    pub radar_range: i32,
    pub x: i32,
    pub y: i32,
    pub bearing: i32,
    pub prx: PrxData,
    pub rect_slots: [u32; 4],
}

/// What the dashboard draws.
#[derive(Debug, PartialEq, Eq)]
pub struct Screen {
    pub texts: Vec<TextDraw>,
    pub rects: Vec<RectDraw>,
}

/// The texts of the dashboard, in drawing order.
pub open spec fn screen_texts(d: Dashboard) -> Seq<TextView> {
    let l = data_line(120, 155, "L: ".spec_bytes(), d.left_motor as int, 4, RED, WHITE, 2);
    let r = data_line(220, 155, "R: ".spec_bytes(), d.right_motor as int, 4, DARKGREEN, WHITE, 2);
    let radar = data_line(
        122,
        212,
        "Radar: ".spec_bytes(),
        d.radar_range as int,
        5,
        WHITE,
        radar_color_of(d.radar_range as int),
        3,
    );
    let px = data_line(122, 175, "P: ".spec_bytes(), d.x as int, 6, BLACK, WHITE, 2);
    let py = data_line(230, 175, ", ".spec_bytes(), d.y as int, 6, BLACK, WHITE, 2);
    let b = data_line(122, 191, "     B: ".spec_bytes(), d.bearing as int, 4, BLACK, WHITE, 2);
    seq![l.0, l.1, r.0, r.1, radar.0, radar.1, px.0, px.1, py.0, py.1, b.0, b.1]
}

/// The alarm rectangles of the dashboard, in drawing order.
pub open spec fn screen_rects(d: Dashboard) -> Seq<RectDraw> {
    let color = |i: int| if d.prx.alarms@[d.rect_slots@[i] as int] { RED } else { GREENYELLOW };
    seq![
        RectDraw { x0: 35, y0: 165, x1: 45, y1: 175, color: color(0) },
        RectDraw { x0: 85, y0: 165, x1: 95, y1: 175, color: color(1) },
        RectDraw { x0: 35, y0: 210, x1: 45, y1: 220, color: color(2) },
        RectDraw { x0: 85, y0: 210, x1: 95, y1: 220, color: color(3) },
    ]
}

/// A dashboard whose numbers can all be shown.
pub open spec fn dashboard_fits(d: Dashboard) -> bool {
    &&& d.left_motor != i32::MIN
    &&& d.right_motor != i32::MIN
    &&& d.radar_range != i32::MIN
    &&& d.x != i32::MIN
    &&& d.y != i32::MIN
    &&& d.bearing != i32::MIN
    &&& forall|i: int| 0 <= i < 4 ==> #[trigger] d.rect_slots@[i] < 4
}

proof fn lemma_label_lengths()
    ensures
        "L: ".spec_bytes().len() == 3,
        "R: ".spec_bytes().len() == 3,
        "Radar: ".spec_bytes().len() == 7,
        "P: ".spec_bytes().len() == 3,
        ", ".spec_bytes().len() == 2,
        "     B: ".spec_bytes().len() == 8,
{
    reveal_strlit("L: ");
    reveal_strlit("R: ");
    reveal_strlit("Radar: ");
    reveal_strlit("P: ");
    reveal_strlit(", ");
    reveal_strlit("     B: ");
    assert(vstd::string::is_ascii("L: "));
    assert(vstd::string::is_ascii("R: "));
    assert(vstd::string::is_ascii("Radar: "));
    assert(vstd::string::is_ascii("P: "));
    assert(vstd::string::is_ascii(", "));
    assert(vstd::string::is_ascii("     B: "));
    vstd::string::is_ascii_spec_bytes("L: ");
    vstd::string::is_ascii_spec_bytes("R: ");
    vstd::string::is_ascii_spec_bytes("Radar: ");
    vstd::string::is_ascii_spec_bytes("P: ");
    vstd::string::is_ascii_spec_bytes(", ");
    vstd::string::is_ascii_spec_bytes("     B: ");
}

/// Law: each line of the dashboard shows its label and, after it, the field of the
/// dashboard that it is named for, in a field of its own width.
pub proof fn law_dashboard_shows_its_fields(d: Dashboard)
    ensures
        screen_texts(d).len() == 12,
        screen_texts(d)[0].text == "L: ".spec_bytes(),
        screen_texts(d)[1].text == value_text(d.left_motor as int, 4),
        screen_texts(d)[2].text == "R: ".spec_bytes(),
        screen_texts(d)[3].text == value_text(d.right_motor as int, 4),
        screen_texts(d)[4].text == "Radar: ".spec_bytes(),
        screen_texts(d)[5].text == value_text(d.radar_range as int, 5),
        screen_texts(d)[6].text == "P: ".spec_bytes(),
        screen_texts(d)[7].text == value_text(d.x as int, 6),
        screen_texts(d)[8].text == ", ".spec_bytes(),
        screen_texts(d)[9].text == value_text(d.y as int, 6),
        screen_texts(d)[10].text == "     B: ".spec_bytes(),
        screen_texts(d)[11].text == value_text(d.bearing as int, 4),
        screen_texts(d)[5].bg_color == radar_color_of(d.radar_range as int),
{
}

/// Lays out the dashboard: the motor powers, the radar reading on a background that
/// grades its distance, the position and bearing, and the four alarm squares.
pub fn screen_draw(d: &Dashboard) -> (s: Screen)
    requires
        dashboard_fits(*d),
    ensures
        s.texts@.len() == 12,
        forall|i: int| 0 <= i < 12 ==> (#[trigger] s.texts@[i])@ == screen_texts(*d)[i],
        s.rects@ == screen_rects(*d),
{
    proof {
        lemma_label_lengths();
        lemma_number_text_len(d.left_motor as int);
        lemma_number_text_len(d.right_motor as int);
        lemma_number_text_len(d.radar_range as int);
        lemma_number_text_len(d.x as int);
        lemma_number_text_len(d.y as int);
        lemma_number_text_len(d.bearing as int);
    }
    let ghost want = screen_texts(*d);
    let mut texts: Vec<TextDraw> = Vec::new();
    let (a, b) = output_data_line(120, 155, "L: ", d.left_motor, 4, RED, WHITE, 2);
    texts.push(a);
    texts.push(b);
    let (a, b) = output_data_line(220, 155, "R: ", d.right_motor, 4, DARKGREEN, WHITE, 2);
    texts.push(a);
    texts.push(b);
    let range = d.radar_range;
    let color = radar_color(range);
    let (a, b) = output_data_line(122, 212, "Radar: ", range, 5, WHITE, color, 3);
    texts.push(a);
    texts.push(b);
    let (a, b) = output_data_line(122, 175, "P: ", d.x, 6, BLACK, WHITE, 2);
    texts.push(a);
    texts.push(b);
    let (a, b) = output_data_line(230, 175, ", ", d.y, 6, BLACK, WHITE, 2);
    texts.push(a);
    texts.push(b);
    let (a, b) = output_data_line(122, 191, "     B: ", d.bearing, 4, BLACK, WHITE, 2);
    texts.push(a);
    texts.push(b);
    let mut rects: Vec<RectDraw> = Vec::new();
    rects.push(RectDraw { x0: 35, y0: 165, x1: 45, y1: 175, color: alarm_color(&d.prx, d.rect_slots[0]) });
    rects.push(RectDraw { x0: 85, y0: 165, x1: 95, y1: 175, color: alarm_color(&d.prx, d.rect_slots[1]) });
    rects.push(RectDraw { x0: 35, y0: 210, x1: 45, y1: 220, color: alarm_color(&d.prx, d.rect_slots[2]) });
    rects.push(RectDraw { x0: 85, y0: 210, x1: 95, y1: 220, color: alarm_color(&d.prx, d.rect_slots[3]) });
    assert(rects@ =~= screen_rects(*d));
    Screen { texts, rects }
}

// ------------------------------------------------------------------
// Telemetry

/// How many samples wait for the server at most.
pub const QUEUE_CAPACITY: usize = 10;

/// How many ticks must pass between two samples (more than this).
pub const SAMPLE_PERIOD: u32 = 250;

/// The telemetry samples that wait to be sent to the server.
pub struct Telemetry {
    samples: Vec<DeskoveryData>,
    sample_timestamp: u32,
}

impl Telemetry {
    /// The samples waiting, oldest first.
    pub closed spec fn samples(&self) -> Seq<DeskoveryData> {
        self.samples@
    }

    /// When the last sample was taken.
    pub closed spec fn timestamp(&self) -> u32 {
        self.sample_timestamp
    }

    pub open spec fn wf(&self) -> bool {
        self.samples().len() <= QUEUE_CAPACITY
    }

    /// No sample yet, last sampled at tick 0.
    pub fn new() -> (t: Telemetry)
        ensures
            t.wf(),
            t.samples() == Seq::<DeskoveryData>::empty(),
            t.timestamp() == 0,
    {
        Telemetry { samples: Vec::new(), sample_timestamp: 0 }
    }

    /// How many samples wait.
    pub fn len(&self) -> (n: usize)
        ensures
            n == self.samples().len(),
    {
        self.samples.len()
    }

    /// When the last sample was taken.
    pub fn last_sample_time(&self) -> (t: u32)
        ensures
            t == self.timestamp(),
    {
        self.sample_timestamp
    }

    /// Whether another sample fits in the queue.
    pub fn has_room(&self) -> (r: bool)
        ensures
            r == (self.samples().len() < QUEUE_CAPACITY),
    {
        self.samples.len() < QUEUE_CAPACITY
    }

    /// Notes a sampling time at which no sample was taken (the queue was full).
    pub fn touch(&mut self, now: u32)
        ensures
            final(self).samples() == old(self).samples(),
            final(self).timestamp() == now,
    {
        self.sample_timestamp = now;
    }

    /// Whether a new sample is due at tick `now`: more than the period has passed.
    pub fn sample_due(&self, now: u32) -> (r: bool)
        requires
            now >= self.timestamp(),
        ensures
            r == (now - self.timestamp() > SAMPLE_PERIOD),
    {
        now - self.sample_timestamp > SAMPLE_PERIOD
    }

    /// Takes `sample` at tick `now`: it is queued unless the queue is full.
    pub fn record(&mut self, now: u32, sample: DeskoveryData)
        requires
            old(self).wf(),
        ensures
            final(self).wf(),
            final(self).timestamp() == now,
            final(self).samples() == (if old(self).samples().len() < QUEUE_CAPACITY {
                old(self).samples().push(sample)
            } else {
                old(self).samples()
            }),
    {
        if self.samples.len() < QUEUE_CAPACITY {
            self.samples.push(sample);
        }
        self.sample_timestamp = now;
    }

    /// Hands over every waiting sample and empties the queue.
    pub fn take_samples(&mut self) -> (r: Vec<DeskoveryData>)
        requires
            old(self).wf(),
        ensures
            final(self).wf(),
            r@ == old(self).samples(),
            final(self).samples() == Seq::<DeskoveryData>::empty(),
            final(self).timestamp() == old(self).timestamp(),
    {
        let mut taken: Vec<DeskoveryData> = Vec::new();
        std::mem::swap(&mut taken, &mut self.samples);
        taken
    }
}

} // verus!
