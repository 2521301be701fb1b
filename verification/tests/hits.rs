use qingjian::frame::Hover;
use qingjian::hits::{inside, target_in, Bands, HitRect, HitState};
use qingjian::router::CandidateEvent;

const MARGIN: i32 = 12;

/// A rectangle given as origin and size in logical pixels, cut to whole pixels
/// the way the window does.
fn rect(x: f32, y: f32, width: f32, height: f32) -> HitRect {
    HitRect {
        left: x as i32,
        top: y as i32,
        right: (x + width) as i32,
        bottom: (y + height) as i32,
    }
}

fn bands() -> Bands {
    Bands {
        rows: vec![rect(0.0, 20.0, 200.0, 20.0), rect(0.0, 44.0, 200.0, 24.0)],
        sentence: Some(rect(120.0, 0.0, 80.0, 20.0)),
        content: rect(MARGIN as f32, MARGIN as f32, 200.0, 68.0),
    }
}

#[test]
fn hit_test_offsets_by_the_shadow_margin() {
    let bands = bands();
    let (x, y) = (MARGIN + 5, MARGIN + 30);
    assert_eq!(target_in(&bands, true, x, y), Some(Hover::Row(0)));
    assert_eq!(target_in(&bands, false, x, y), Some(Hover::Row(0)));
    assert_eq!(
        target_in(&bands, true, MARGIN + 5, MARGIN + 66),
        Some(Hover::Row(1))
    );
    assert_eq!(
        target_in(&bands, true, MARGIN + 150, MARGIN + 8),
        Some(Hover::Trailing)
    );
}

#[test]
fn the_shadow_margin_is_not_pointable() {
    let bands = bands();
    assert_eq!(target_in(&bands, true, 5, MARGIN + 30), None, "left margin");
    assert_eq!(target_in(&bands, true, 300, MARGIN + 30), None, "right margin");
    assert_eq!(target_in(&bands, true, MARGIN + 5, 5), None, "top margin");
    assert_eq!(target_in(&bands, true, MARGIN + 5, 200), None, "below the content");
    assert_eq!(target_in(&bands, true, MARGIN + 5, MARGIN + 42), None);
}

#[test]
fn horizontal_hits_stop_at_the_band_bottom() {
    let bands = Bands {
        rows: vec![rect(0.0, 20.0, 200.0, 20.0)],
        sentence: None,
        content: rect(MARGIN as f32, MARGIN as f32, 200.0, 80.0),
    };
    assert_eq!(
        target_in(&bands, false, MARGIN + 5, MARGIN + 30),
        Some(Hover::Row(0))
    );
    assert_eq!(
        target_in(&bands, false, MARGIN + 5, MARGIN + 50),
        None,
        "below a horizontal candidate nothing is hit"
    );
    assert_eq!(target_in(&bands, false, MARGIN + 5, MARGIN + 75), None);
    assert_eq!(
        target_in(&bands, true, MARGIN + 5, MARGIN + 30),
        Some(Hover::Row(0))
    );
}

#[test]
fn an_empty_frame_hits_nothing() {
    assert_eq!(target_in(&Bands::default(), true, 0, 0), None);
    assert!(inside(rect(0.0, 0.0, 10.0, 10.0), 9, 9));
    assert!(!inside(rect(0.0, 0.0, 10.0, 10.0), 10, 9));
}

#[test]
fn status_cells_are_found_inside_the_margin() {
    let cells = vec![rect(0.0, 2.0, 30.0, 20.0), rect(30.0, 2.0, 30.0, 20.0)];
    assert_eq!(qingjian::hits::cell_at(&cells, 8, 8 + 5, 8 + 10), Some(0));
    assert_eq!(qingjian::hits::cell_at(&cells, 8, 8 + 35, 8 + 10), Some(1));
    assert_eq!(qingjian::hits::cell_at(&cells, 8, 3, 8 + 10), None);
    assert_eq!(qingjian::hits::cell_at(&cells, 8, 8 + 5, 8 + 1), None);
}

#[test]
fn hover_follows_the_mouse_and_clicks_pick() {
    let mut state = HitState::new();
    assert!(!state.set_bands(bands(), true, None));
    let moved = state.on_mouse_move(MARGIN + 5, MARGIN + 30);
    assert!(moved.track_leave);
    assert!(moved.repaint);
    assert_eq!(state.hover, Some(Hover::Row(0)));
    let again = state.on_mouse_move(MARGIN + 6, MARGIN + 31);
    assert!(!again.track_leave);
    assert!(!again.repaint);
    assert_eq!(state.on_click(MARGIN + 150, MARGIN + 8), Some(CandidateEvent::PickSentence));
    assert_eq!(state.on_click(MARGIN + 5, MARGIN + 66), Some(CandidateEvent::Pick(1)));
    assert_eq!(state.on_click(1, 1), None);
    assert!(state.on_mouse_leave());
    assert_eq!(state.hover, None);
    assert!(!state.tracking);
    assert!(state.set_bands(bands(), true, Some((MARGIN + 5, MARGIN + 66))));
    assert_eq!(state.hover, Some(Hover::Row(1)));
}
