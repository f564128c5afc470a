use rmixer::layout::{meter_layout, strip_width, MeterLayout, MIN_STRIP_WIDTH};

#[test]
fn mono_meter_is_three_cells_in_the_middle() {
    assert_eq!(meter_layout(9, 1), MeterLayout { offset: 3, meter_width: 3, gap: 0, meters: 1 });
    assert_eq!(meter_layout(6, 1), MeterLayout { offset: 1, meter_width: 3, gap: 0, meters: 1 });
    assert_eq!(meter_layout(2, 1), MeterLayout { offset: 0, meter_width: 2, gap: 0, meters: 1 });
    assert_eq!(meter_layout(0, 1), MeterLayout { offset: 0, meter_width: 0, gap: 0, meters: 1 });
}

#[test]
fn stereo_meters_are_two_cells_each_with_a_gap() {
    assert_eq!(meter_layout(9, 2), MeterLayout { offset: 2, meter_width: 2, gap: 1, meters: 2 });
    assert_eq!(meter_layout(5, 2), MeterLayout { offset: 0, meter_width: 2, gap: 1, meters: 2 });
    assert_eq!(meter_layout(4, 2), MeterLayout { offset: 0, meter_width: 2, gap: 0, meters: 2 });
    assert_eq!(meter_layout(3, 2), MeterLayout { offset: 0, meter_width: 1, gap: 1, meters: 2 });
    assert_eq!(meter_layout(1, 2), MeterLayout { offset: 0, meter_width: 0, gap: 1, meters: 2 });
    assert_eq!(meter_layout(0, 2), MeterLayout { offset: 0, meter_width: 0, gap: 0, meters: 2 });
}

#[test]
fn meters_never_leave_the_row() {
    for width in 0..200u16 {
        let m = meter_layout(width, 1);
        assert!(m.offset + m.meter_width <= width);
        let s = meter_layout(width, 2);
        assert!(s.offset + 2 * s.meter_width + s.gap <= width);
    }
    let wide = meter_layout(u16::MAX, 2);
    assert_eq!(wide, MeterLayout { offset: 32765, meter_width: 2, gap: 1, meters: 2 });
}

#[test]
fn strips_share_the_section_but_keep_a_least_width() {
    assert_eq!(MIN_STRIP_WIDTH, 8);
    assert_eq!(strip_width(80, 4), 20);
    assert_eq!(strip_width(80, 3), 26);
    assert_eq!(strip_width(80, 10), 8);
    assert_eq!(strip_width(80, 11), 8);
    assert_eq!(strip_width(0, 1), 8);
}
