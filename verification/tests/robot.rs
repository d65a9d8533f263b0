use deskovery::data::{DeskoveryData, PrxData, ServerData};
use deskovery::robot::{
    adjust_motor, alarm_color, motor_powers, output_data_line, output_value, radar_color,
    screen_draw, Dashboard, RectDraw, Telemetry, TextDraw, BLACK, BLUE, DARKGREEN, GREENYELLOW,
    LIGHTGREY, NAVY, RED, WHITE,
};

#[test]
fn motor_dead_zone_and_ramp() {
    assert_eq!(adjust_motor(0), 0);
    assert_eq!(adjust_motor(49), 0);
    assert_eq!(adjust_motor(-49), 0);
    assert_eq!(adjust_motor(50), -200);
    assert_eq!(adjust_motor(-50), 200);
    assert_eq!(adjust_motor(100), -225);
    assert_eq!(adjust_motor(-100), 225);
    assert_eq!(adjust_motor(1000), -675);
    assert_eq!(adjust_motor(53), -201);
}

#[test]
fn motor_laws_on_values() {
    for a in [-2000, -300, -51, -50, -10, 0, 10, 50, 51, 300, 2000] {
        assert_eq!(adjust_motor(-a), -adjust_motor(a));
        let p = adjust_motor(a);
        assert!(p == 0 || p.abs() >= 200);
    }
    let mut prev = adjust_motor(-3000);
    for a in -3000..3000 {
        let p = adjust_motor(a);
        assert!(p <= prev);
        prev = p;
    }
}

#[test]
fn motor_powers_for_server_data() {
    let data = ServerData { x: 1000, y: -60, b1: false, b2: false, b3: false, b4: false };
    assert_eq!(motor_powers(&data), (-675, 205));
}

#[test]
fn values_are_padded_or_cut() {
    assert_eq!(output_value(42, 4), b"42  ".to_vec());
    assert_eq!(output_value(-7, 4), b"-7  ".to_vec());
    assert_eq!(output_value(0, 6), b"0     ".to_vec());
    assert_eq!(output_value(123456, 4), b"1234".to_vec());
    assert_eq!(output_value(-300, 4), b"-300".to_vec());
    assert_eq!(output_value(2147483647, 10), b"2147483647".to_vec());
    // Ten digits leave no room for the sign.
    assert_eq!(output_value(-2147483647, 10), b"2147483647".to_vec());
    assert_eq!(output_value(5, 11), b"5          ".to_vec());
}

#[test]
fn data_line_places_the_value_after_the_label() {
    let (label, value) = output_data_line(120, 155, "L: ", -225, 4, RED, WHITE, 2);
    assert_eq!(label, TextDraw { x: 120, y: 155, text: b"L: ".to_vec(), color: RED, bg_color: WHITE, size: 2 });
    assert_eq!(value, TextDraw { x: 156, y: 155, text: b"-225".to_vec(), color: RED, bg_color: WHITE, size: 2 });
}

fn prx(alarms: [bool; 4]) -> PrxData {
    PrxData { alarmRatio10: 0, alarms, alarm: false, darkResponse: [0; 4], lightResponse: [0; 4] }
}

#[test]
fn colors() {
    assert_eq!(radar_color(-1), LIGHTGREY);
    assert_eq!(radar_color(0), RED);
    assert_eq!(radar_color(300), RED);
    assert_eq!(radar_color(301), BLUE);
    assert_eq!(radar_color(500), BLUE);
    assert_eq!(radar_color(501), NAVY);
    assert_eq!(radar_color(-5), NAVY);
    let prx = prx([true, false, true, false]);
    assert_eq!(alarm_color(&prx, 0), 0xF800);
    assert_eq!(alarm_color(&prx, 1), 0xAFE5);
    assert_eq!(alarm_color(&prx, 2), 0xF800);
    assert_eq!(GREENYELLOW, 0xAFE5);
}

#[test]
fn dashboard_layout() {
    let d = Dashboard {
        left_motor: -225,
        right_motor: 0,
        radar_range: 420,
        x: 1234,
        y: -56,
        bearing: 90,
        prx: prx([false, false, true, false]),
        rect_slots: [3, 2, 1, 0],
    };
    let s = screen_draw(&d);
    assert_eq!(s.texts.len(), 12);
    assert_eq!(s.texts[1].x, 156);
    assert_eq!(s.texts[1].text, b"-225".to_vec());
    assert_eq!(s.texts[2].color, DARKGREEN);
    assert_eq!(s.texts[3].x, 256);
    assert_eq!(s.texts[3].text, b"0   ".to_vec());
    assert_eq!(s.texts[4].text, b"Radar: ".to_vec());
    assert_eq!(s.texts[5].x, 248);
    assert_eq!(s.texts[5].bg_color, BLUE);
    assert_eq!(s.texts[5].color, WHITE);
    assert_eq!(s.texts[5].size, 3);
    assert_eq!(s.texts[5].text, b"420  ".to_vec());
    assert_eq!(s.texts[7].text, b"1234  ".to_vec());
    assert_eq!(s.texts[8].text, b", ".to_vec());
    assert_eq!(s.texts[9].x, 254);
    assert_eq!(s.texts[9].text, b"-56   ".to_vec());
    assert_eq!(s.texts[11].x, 218);
    assert_eq!(s.texts[11].color, BLACK);
    assert_eq!(s.texts[11].text, b"90  ".to_vec());
    assert_eq!(
        s.rects,
        vec![
            RectDraw { x0: 35, y0: 165, x1: 45, y1: 175, color: GREENYELLOW },
            RectDraw { x0: 85, y0: 165, x1: 95, y1: 175, color: RED },
            RectDraw { x0: 35, y0: 210, x1: 45, y1: 220, color: GREENYELLOW },
            RectDraw { x0: 85, y0: 210, x1: 95, y1: 220, color: GREENYELLOW },
        ]
    );
}

fn sample(x: i32) -> DeskoveryData {
    DeskoveryData { x, ..Default::default() }
}

#[test]
fn telemetry_keeps_ten_samples() {
    let mut t = Telemetry::new();
    assert!(!t.sample_due(250));
    assert!(t.sample_due(251));
    for i in 0..12 {
        assert_eq!(t.has_room(), i < 10);
        t.record(300 + i as u32, sample(i));
    }
    assert_eq!(t.len(), 10);
    assert!(!t.sample_due(311 + 250));
    assert!(t.sample_due(311 + 251));
    t.touch(1000);
    assert!(!t.sample_due(1250));
    let taken = t.take_samples();
    assert_eq!(taken.len(), 10);
    assert_eq!(taken[0], sample(0));
    assert_eq!(taken[9], sample(9));
    assert_eq!(t.len(), 0);
    t.record(2000, sample(42));
    assert_eq!(t.take_samples(), vec![sample(42)]);
}

#[test]
fn default_sample_is_zero() {
    let d = DeskoveryData::default();
    assert_eq!(d, DeskoveryData { x: 0, y: 0, th: 0, ps1: false, ps2: false, ps3: false, ps4: false, dto: 0 });
}
