use qingjian::placement::{clamp_anchor, default_anchor, place, CaretRect, WorkArea};

const WORK: WorkArea = WorkArea {
    left: 0,
    top: 0,
    right: 1920,
    bottom: 1040,
};

#[test]
fn candidates_go_below_the_caret_when_they_fit() {
    let caret = CaretRect { left: 100, top: 200, right: 101, bottom: 220 };
    assert_eq!(place(caret, (300, 200), WORK), (100, 222));
}

#[test]
fn candidates_go_above_near_the_bottom_and_stay_inside() {
    let caret = CaretRect { left: 1800, top: 950, right: 1801, bottom: 970 };
    assert_eq!(place(caret, (300, 200), WORK), (1620, 748));
    let tall = CaretRect { left: 10, top: 100, right: 11, bottom: 950 };
    assert_eq!(place(tall, (300, 200), WORK), (10, 840));
}

#[test]
fn status_bar_defaults_to_the_bottom_right_and_is_clamped() {
    assert_eq!(default_anchor((120, 30), 16, WORK), (1920 - 16 - 8 - 120, 1040 - 16 - 8 - 30));
    assert_eq!(default_anchor((120, 30), 32, WORK), (1920 - 32 - 16 - 120, 1040 - 32 - 16 - 30));
    assert_eq!(clamp_anchor((5000, -50), (120, 30), 16, WORK), (1920 - 16 - 120, 16));
    assert_eq!(clamp_anchor((500, 500), (120, 30), 16, WORK), (500, 500));
}
