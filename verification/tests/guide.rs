use qingjian::guide::{
    combo_name, modifiers_name, page_keys_name, prefix_name, with_digit, KeyCombo, Modifiers,
};

fn modifiers(control: bool, shift: bool, option: bool, command: bool) -> Modifiers {
    Modifiers { control, shift, option, command }
}

#[test]
fn modifiers_take_their_windows_names() {
    assert_eq!(modifiers_name(modifiers(true, false, false, false)), "Ctrl");
    assert_eq!(modifiers_name(modifiers(true, true, true, true)), "Ctrl + Shift + Alt + Win");
    assert_eq!(modifiers_name(modifiers(false, false, true, false)), "Alt");
    assert_eq!(modifiers_name(modifiers(false, false, false, false)), "（没配）");
}

#[test]
fn digits_and_combinations_are_spelled_out() {
    assert_eq!(with_digit(modifiers(true, false, false, false)), "Ctrl + 数字");
    let combo = KeyCombo { modifiers: modifiers(true, false, true, false), key: 't' };
    assert_eq!(combo_name(combo), "Ctrl + Alt + T");
    let unset = KeyCombo { modifiers: modifiers(false, false, false, false), key: '/' };
    assert_eq!(combo_name(unset), "（没配） + /");
}

#[test]
fn page_key_pairs_are_named() {
    assert_eq!(page_keys_name(",."), "逗号、句号");
    assert_eq!(page_keys_name("-="), "减号、等号");
    assert_eq!(page_keys_name("[]"), "方括号 [ ]");
    assert_eq!(page_keys_name(""), "方括号 [ ]");
}

#[test]
fn prefix_keys_need_shift_under_shuangpin() {
    assert_eq!(prefix_name('v', false), "v");
    assert_eq!(prefix_name('v', true), "Shift + V");
    assert_eq!(prefix_name('?', true), "Shift + ?");
}
