use qingjian::config::{Scheme, SessionId};
use qingjian::router::{
    CandidateAction, CandidateEvent, ConfigValue, Router, RouterConfig, StatusEvent,
};
use qingjian::status::{mode_text, ThemeMode};

const SESSION: SessionId = SessionId(1);

fn config() -> RouterConfig {
    RouterConfig {
        english_mode: true,
        full_width: true,
        english_full_width: false,
        status_enabled: true,
        zhuyin: false,
        scheme: Scheme::Pinyin,
        wubi: false,
        page_size: 5,
        status_pos: None,
        theme: ThemeMode::System,
    }
}

fn host_of(session: SessionId) -> (u32, u32) {
    (1000 + session.0 as u32 * 100, session.0 as u32)
}

fn open(router: &mut Router, session: SessionId, app: Option<&str>) {
    let (pid, tid) = host_of(session);
    router.open_session(session, app.map(str::to_owned), pid, tid);
}

fn router_with(config: RouterConfig) -> Router {
    let mut router = Router::new(config, false);
    open(&mut router, SESSION, Some("Code.exe"));
    router
}

fn focus_window(router: &mut Router, session: SessionId) {
    let (pid, tid) = host_of(session);
    router.handle_foreground(vec![(tid, pid)]);
}

fn shown(router: &Router) -> Option<String> {
    router.status().map(|view| mode_text(&view))
}

#[test]
fn status_bar_follows_mode_when_enabled() {
    let mut router = router_with(config());
    router.handle_mode_changed(SESSION, false, false);
    assert_eq!(shown(&router), Some("拼".to_owned()));
    router.handle_mode_changed(SESSION, true, false);
    assert_eq!(shown(&router), Some("英".to_owned()));
    router.close_session(SESSION);
    assert_eq!(shown(&router), None);
    assert_eq!(router.session_count(), 0);
}

#[test]
fn status_bar_hides_after_switching_to_another_ime() {
    let mut router = router_with(config());
    router.handle_mode_changed(SESSION, false, false);
    assert_eq!(shown(&router), Some("拼".to_owned()));
    router.handle_ime_switched(SESSION);
    assert_eq!(shown(&router), None);
}

#[test]
fn status_bar_follows_the_foreground_application() {
    let mut router = router_with(config());
    let notepad = SessionId(2);
    open(&mut router, notepad, Some("notepad.exe"));
    router.handle_mode_changed(SESSION, false, false);
    router.handle_mode_changed(notepad, true, false);
    assert_eq!(shown(&router), Some("拼".to_owned()));
    focus_window(&mut router, notepad);
    assert_eq!(shown(&router), Some("英".to_owned()));
    focus_window(&mut router, SESSION);
    assert_eq!(shown(&router), Some("拼".to_owned()));
    router.handle_mode_changed(notepad, false, false);
    assert_eq!(shown(&router), Some("拼".to_owned()));
}

#[test]
fn foreground_falls_back_to_the_process_and_needs_both_ids_first() {
    let mut router = router_with(config());
    router.handle_mode_changed(SESSION, false, false);
    router.handle_foreground(vec![(9999, 8888)]);
    assert_eq!(shown(&router), None);
    let (pid, tid) = host_of(SESSION);
    router.handle_foreground(vec![(tid, 8888)]);
    assert_eq!(shown(&router), None, "a recycled thread id alone is not enough");
    router.handle_foreground(vec![(9999, 8888), (7, pid)]);
    assert_eq!(shown(&router), Some("拼".to_owned()));
    assert_eq!(router.match_foreground(&vec![(tid, pid)]), Some(SESSION));
}

#[test]
fn pending_mode_goes_only_to_the_foreground_session_once() {
    let mut router = router_with(config());
    let notepad = SessionId(2);
    open(&mut router, notepad, None);
    router.handle_mode_changed(SESSION, false, false);
    router.handle_mode_changed(notepad, false, false);
    focus_window(&mut router, SESSION);
    let outcome = router.handle_status_event(StatusEvent::ToggleMode);
    assert!(outcome.writes.is_empty());
    assert_eq!(shown(&router), Some("英".to_owned()));
    assert_eq!(router.take_pending_mode(notepad), None);
    assert_eq!(router.take_pending_mode(SESSION), Some(true));
    assert_eq!(router.take_pending_mode(SESSION), None);
}

#[test]
fn pending_mode_is_dropped_when_the_foreground_changes() {
    let mut router = router_with(config());
    let notepad = SessionId(2);
    open(&mut router, notepad, None);
    router.handle_mode_changed(SESSION, false, false);
    router.handle_mode_changed(notepad, false, false);
    focus_window(&mut router, SESSION);
    router.handle_status_event(StatusEvent::ToggleMode);
    focus_window(&mut router, notepad);
    assert_eq!(router.take_pending_mode(SESSION), None);
    assert_eq!(router.take_pending_mode(notepad), None);
}

#[test]
fn mode_click_is_ignored_when_builtin_english_is_off() {
    let mut router = router_with(RouterConfig {
        english_mode: false,
        ..config()
    });
    router.handle_mode_changed(SESSION, false, false);
    assert_eq!(shown(&router), Some("拼".to_owned()));
    router.handle_status_event(StatusEvent::ToggleMode);
    assert_eq!(shown(&router), Some("拼".to_owned()));
    assert_eq!(router.take_pending_mode(SESSION), None);
}

#[test]
fn status_bar_mode_cell_shows_scheme_letters_and_caps() {
    let mut router = router_with(RouterConfig {
        scheme: Scheme::Shuangpin(qingjian::config::ShuangpinScheme::Xiaohe),
        wubi: true,
        ..config()
    });
    router.handle_mode_changed(SESSION, false, false);
    assert_eq!(shown(&router), Some("双五".to_owned()));
    router.handle_mode_changed(SESSION, false, true);
    assert_eq!(shown(&router), Some("A".to_owned()));
    router.handle_mode_changed(SESSION, true, true);
    assert_eq!(shown(&router), Some("A".to_owned()));
}

#[test]
fn status_bar_stays_hidden_when_disabled() {
    let mut router = router_with(RouterConfig {
        status_enabled: false,
        ..config()
    });
    router.handle_mode_changed(SESSION, false, false);
    assert_eq!(shown(&router), None);
}

#[test]
fn punctuation_toggle_is_remembered_per_mode() {
    let mut router = router_with(config());
    router.handle_mode_changed(SESSION, false, false);
    let outcome = router.handle_status_event(StatusEvent::TogglePunctuation);
    assert_eq!(outcome.writes.len(), 1);
    assert_eq!(outcome.writes[0].section, "general");
    assert_eq!(outcome.writes[0].key, "full_width_punctuation");
    assert_eq!(outcome.writes[0].value, ConfigValue::Bool(false));
    assert!(!router.config().full_width);
    assert!(!router.status().unwrap().full_width);
    router.handle_mode_changed(SESSION, true, false);
    let outcome = router.handle_status_event(StatusEvent::TogglePunctuation);
    assert_eq!(outcome.writes[0].key, "english_full_width_punctuation");
    assert_eq!(outcome.writes[0].value, ConfigValue::Bool(true));
    assert!(router.config().english_full_width);
    assert!(!router.config().full_width, "the Chinese setting is untouched");
}

#[test]
fn cloud_toggle_and_drag_write_back() {
    let mut router = router_with(config());
    router.handle_mode_changed(SESSION, false, false);
    router.set_sentence(Some("你好".to_owned()));
    let outcome = router.handle_status_event(StatusEvent::ToggleCloud);
    assert_eq!(outcome.cloud, Some(true));
    assert_eq!(outcome.writes[0].section, "predict");
    assert_eq!(outcome.writes[0].value, ConfigValue::Bool(true));
    assert!(router.status().unwrap().cloud);
    let outcome = router.handle_status_event(StatusEvent::ToggleCloud);
    assert_eq!(outcome.cloud, Some(false));
    assert_eq!(
        router.handle_candidate_event(CandidateEvent::PickSentence),
        CandidateAction::RequestSentence,
        "turning the cloud off dropped the sentence"
    );
    let outcome = router.handle_status_event(StatusEvent::Moved(-5, 700));
    assert_eq!(outcome.writes.len(), 2);
    assert_eq!(outcome.writes[0].key, "x");
    assert_eq!(outcome.writes[0].value, ConfigValue::Int(-5));
    assert_eq!(outcome.writes[1].value, ConfigValue::Int(700));
    assert_eq!(router.status().unwrap().anchor, Some((-5, 700)));
}

#[test]
fn candidate_click_hands_the_text_to_the_next_poll() {
    let mut router = router_with(config());
    assert!(router.ensure_focus(SESSION));
    router.set_highlight(7);
    assert_eq!(
        router.handle_candidate_event(CandidateEvent::Pick(2)),
        CandidateAction::Commit(7)
    );
    router.queue_commit("开发".to_owned());
    router.queue_commit("者".to_owned());
    assert_eq!(router.take_pending_commit(SessionId(9)), None);
    assert_eq!(router.take_pending_commit(SESSION), Some("开发者".to_owned()));
    assert_eq!(router.take_pending_commit(SESSION), None);
}

#[test]
fn picking_the_sentence_accepts_it_once() {
    let mut router = router_with(config());
    router.set_sentence(Some("你好世界".to_owned()));
    assert_eq!(
        router.handle_candidate_event(CandidateEvent::PickSentence),
        CandidateAction::AcceptSentence("你好世界".to_owned())
    );
    assert_eq!(
        router.handle_candidate_event(CandidateEvent::PickSentence),
        CandidateAction::RequestSentence
    );
}

#[test]
fn privacy_follows_the_focused_session() {
    let mut router = router_with(config());
    let notepad = SessionId(2);
    open(&mut router, notepad, Some("notepad.exe"));
    router.ensure_focus(SESSION);
    assert!(!router.is_private());
    router.set_privacy(notepad, true);
    assert!(!router.is_private(), "another session's field does not count");
    router.set_privacy(SESSION, true);
    assert!(router.is_private());
    assert!(router.ensure_focus(notepad));
    assert!(router.is_private());
    assert_eq!(router.focused_app(), Some("notepad.exe".to_owned()));
    router.set_privacy(notepad, false);
    assert!(!router.is_private());
    assert!(!router.ensure_focus(notepad));
}

#[test]
fn focus_leave_commits_raw_input_only_for_its_own_session() {
    let mut router = router_with(config());
    router.ensure_focus(SESSION);
    router.queue_commit("你".to_owned());
    assert!(!router.commit_raw_for(SessionId(2), true));
    assert_eq!(router.take_pending_commit(SESSION), None, "the state was cleared");
    assert!(router.commit_raw_for(SESSION, true));
    assert!(!router.commit_raw_for(SESSION, false));
}

#[test]
fn reopening_a_session_starts_it_over() {
    let mut router = router_with(config());
    router.handle_mode_changed(SESSION, true, false);
    assert_eq!(shown(&router), Some("英".to_owned()));
    open(&mut router, SESSION, Some("Code.exe"));
    assert_eq!(router.session_count(), 1);
    assert_eq!(shown(&router), None, "a fresh session has not reported a mode yet");
}

#[test]
fn foreground_hints_are_collected_once_each() {
    let mut hints = Vec::new();
    qingjian::router::add_hint(&mut hints, (1, 2));
    qingjian::router::add_hint(&mut hints, (1, 2));
    qingjian::router::add_hint(&mut hints, (3, 2));
    assert_eq!(hints, vec![(1, 2), (3, 2)]);
    assert!(!qingjian::router::hints_full(&hints));
    let many: Vec<(u32, u32)> = (0..qingjian::router::MAX_HINTS as u32).map(|i| (i, i)).collect();
    assert!(qingjian::router::hints_full(&many));
}

#[test]
fn a_new_configuration_moves_the_status_bar_at_once() {
    let mut router = router_with(config());
    router.handle_mode_changed(SESSION, false, false);
    router.set_sentence(Some("你好".to_owned()));
    router.apply_config(
        RouterConfig {
            status_enabled: false,
            ..config()
        },
        true,
        false,
    );
    assert_eq!(shown(&router), None);
    assert_eq!(
        router.handle_candidate_event(CandidateEvent::PickSentence),
        CandidateAction::AcceptSentence("你好".to_owned())
    );
    router.set_sentence(Some("再见".to_owned()));
    router.apply_config(config(), true, true);
    assert!(router.status().unwrap().cloud);
    assert_eq!(
        router.handle_candidate_event(CandidateEvent::PickSentence),
        CandidateAction::RequestSentence,
        "a replaced predictor's sentence is dropped"
    );
}

#[test]
fn privacy_is_the_focused_sessions_last_report() {
    let mut router = router_with(config());
    let other = SessionId(2);
    open(&mut router, other, None);
    router.ensure_focus(SESSION);
    router.set_privacy(SESSION, true);
    assert!(router.is_private());
    router.ensure_focus(other);
    assert!(!router.is_private());
    router.ensure_focus(SESSION);
    assert!(router.is_private());
    router.set_privacy(SESSION, false);
    assert!(!router.is_private());
    router.set_privacy(SessionId(9), true);
    assert!(!router.is_private());
}

#[test]
fn mode_reports_keep_the_rest_of_the_session() {
    let mut router = router_with(config());
    router.ensure_focus(SESSION);
    router.set_privacy(SESSION, true);
    router.handle_mode_changed(SESSION, false, true);
    assert!(router.is_private());
    assert_eq!(router.focused_app(), Some("Code.exe".to_owned()));
    router.handle_ime_switched(SESSION);
    assert!(router.is_private());
    assert_eq!(router.focused_app(), Some("Code.exe".to_owned()));
}
