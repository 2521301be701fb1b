use qingjian::frame::{Frame, Preedit, Row};

#[test]
fn pending_placeholder_shows_dots_but_is_not_pointable() {
    assert!(Frame::default().trailing().is_none(), "nothing pending, nothing shown");

    let waiting = Frame {
        sentence_pending: true,
        ..Frame::default()
    };
    let tail = waiting.trailing().expect("a pending sentence shows dots");
    assert!(tail.cloud, "the dots carry the cloud, where the result will be");
    assert!(!tail.pointable, "there is nothing to click yet");

    let arrived = Frame {
        sentence_pending: false,
        sentence: Some("你好".to_owned()),
        ..Frame::default()
    };
    let tail = arrived.trailing().expect("an arrived sentence is shown");
    assert_eq!(tail.text, "你好");
    assert!(tail.pointable);
}

#[test]
fn a_status_message_outranks_the_sentence() {
    let frame = Frame {
        sentence: Some("你好".to_owned()),
        status: Some("已删除".to_owned()),
        sentence_pending: true,
        ..Frame::default()
    };
    let tail = frame.trailing().unwrap();
    assert_eq!(tail.text, "已删除");
    assert!(!tail.cloud);
    assert!(!tail.pointable);
}

#[test]
fn empty_frames_and_top_lines() {
    assert!(Frame::default().is_empty());
    assert!(!Frame::default().has_top_line());
    let dots = Frame {
        sentence_pending: true,
        ..Frame::default()
    };
    assert_eq!(dots.trailing().unwrap().text, "…");
    assert!(!dots.is_empty());
    assert!(dots.has_top_line());
    let rows = Frame {
        rows: vec![Row { text: "你好".to_owned() }],
        ..Frame::default()
    };
    assert!(!rows.is_empty());
    assert!(!rows.has_top_line());
    let preedit = Frame {
        preedit: Some(Preedit { text: "ni hao".to_owned() }),
        ..Frame::default()
    };
    assert!(preedit.has_top_line());
    assert!(!preedit.is_empty());
}
