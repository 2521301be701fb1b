use qingjian::mode_keys::ModeKeys;

#[test]
fn defaults_are_v_and_u_and_question_mark_is_off() {
    let keys = ModeKeys::default();
    assert!(keys.is_expression("v12", false));
    assert!(keys.is_question("usangemu", false));
    assert!(keys.is_continue("i", false));
    assert!(!keys.is_continue("nihao", false));
    assert!(!keys.is_question("?sangemu", false));
    assert_eq!(keys.question_body("usangemu", false), "sangemu");
    assert_eq!(keys.question_body("?sangemu", false), "?sangemu");
    assert!(!keys.is_question("nihao", false));
}

#[test]
fn question_mark_is_an_alias_only_when_switched_on() {
    let keys = ModeKeys {
        question_mark: true,
        ..ModeKeys::default()
    };
    assert!(keys.is_question("?sangemu", false));
    assert_eq!(keys.question_body("?sangemu", false), "sangemu");
    let letterless = keys.letterless();
    assert!(!letterless.is_question("usangemu", false));
    assert!(letterless.is_question("?sangemu", false));
    assert!(!ModeKeys::default().letterless().is_question("?x", false));
}

#[test]
fn invalid_combinations_fall_back_to_defaults() {
    let same = ModeKeys {
        expression: 'v',
        question: 'v',
        continue_key: 'i',
        question_mark: true,
    };
    assert!(!same.is_valid());
    assert_eq!(
        same.sanitized(),
        ModeKeys {
            question_mark: true,
            ..ModeKeys::default()
        }
    );
    let pinyin_initial = ModeKeys {
        expression: 'v',
        question: 'z',
        continue_key: 'i',
        question_mark: false,
    };
    assert_eq!(pinyin_initial.sanitized(), ModeKeys::default());
    let swapped = ModeKeys {
        expression: 'i',
        question: 'v',
        continue_key: 'u',
        question_mark: false,
    };
    assert!(swapped.is_valid());
    assert!(swapped.is_question("v4e00", false));
    let taken = ModeKeys {
        expression: 'i',
        question: 'u',
        continue_key: 'i',
        question_mark: false,
    };
    assert!(!taken.is_valid());
    let fixed = taken.sanitized();
    assert_eq!(fixed.expression, 'i');
    assert_eq!(fixed.question, 'u');
    assert_eq!(fixed.continue_key, 'v');
}

#[test]
fn sanitizing_twice_changes_nothing_more() {
    let odd = ModeKeys {
        expression: 'u',
        question: 'i',
        continue_key: 'u',
        question_mark: true,
    };
    let once = odd.sanitized();
    assert!(once.is_valid());
    assert_eq!(once.continue_key, 'v');
    assert_eq!(once.sanitized(), once);
}

#[test]
fn zhuyin_keeps_syllable_keys_out_of_the_modes() {
    let keys = ModeKeys::default();
    // `u` and `i` are zhuyin syllable keys; `v` is one too.
    assert!(keys.is_question("usangemu", false));
    assert!(!keys.is_question("usangemu", true));
    assert!(!keys.is_continue("i", true));
    assert_eq!(keys.question_body("usangemu", true), "usangemu");
}
