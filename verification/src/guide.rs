//! The key names of the usage guide, written as the settings page shows them:
//! modifier keys under their Windows names, the translation combination, the
//! page-key pair and the prefix keys (held with Shift under shuangpin, where
//! the plain letters are syllable keys).

use vstd::prelude::*;

use crate::text::{append_chars, push_char};

verus! {

/// The modifier keys of a shortcut, stored under the macOS names (control,
/// option, command) and shown under the Windows ones (Ctrl, Alt, Win).
#[derive(Debug, Clone, Copy, PartialEq, Eq, Structural)]
pub struct Modifiers {
    pub control: bool,
    pub shift: bool,
    pub option: bool,
    pub command: bool,
}

/// A modifier combination and a letter (the translation shortcut).
#[derive(Debug, Clone, Copy, PartialEq, Eq, Structural)]
pub struct KeyCombo {
    pub modifiers: Modifiers,
    pub key: char,
}

/// The names of the pressed modifiers, in the order Ctrl, Shift, Alt, Win.
pub open spec fn modifier_parts(m: Modifiers) -> Seq<Seq<char>> {
    let a: Seq<Seq<char>> = if m.control {
        seq!["Ctrl"@]
    } else {
        Seq::empty()
    };
    let b = if m.shift {
        a.push("Shift"@)
    } else {
        a
    };
    let c = if m.option {
        b.push("Alt"@)
    } else {
        b
    };
    if m.command {
        c.push("Win"@)
    } else {
        c
    }
}

/// The parts written one after another with `sep` between neighbours.
pub open spec fn joined_with(parts: Seq<Seq<char>>, sep: Seq<char>) -> Seq<char>
    decreases parts.len(),
{
    if parts.len() == 0 {
        Seq::empty()
    } else if parts.len() == 1 {
        parts[0]
    } else {
        joined_with(parts.drop_last(), sep) + sep + parts.last()
    }
}

/// The shown name of a modifier combination: the pressed keys joined by
/// `" + "`, or a note that none is set.
pub open spec fn modifiers_name_spec(m: Modifiers) -> Seq<char> {
    if modifier_parts(m).len() == 0 {
        "（没配）"@
    } else {
        joined_with(modifier_parts(m), " + "@)
    }
}

/// `c` with an ASCII small letter made capital (`char::to_ascii_uppercase`).
pub open spec fn ascii_upper(c: char) -> char {
    if 'a' <= c <= 'z' {
        ((c as u32) - 32) as char
    } else {
        c
    }
}

fn ascii_uppercase(c: char) -> (r: char)
    ensures
        r == ascii_upper(c),
{
    let u = c as u32;
    if 97 <= u && u <= 122 {
        ((u - 32) as u8) as char
    } else {
        c
    }
}

fn pressed_parts(m: Modifiers) -> (r: Vec<&'static str>)
    ensures
        r@.map_values(|p: &'static str| p@) == modifier_parts(m),
{
    let mut parts: Vec<&'static str> = Vec::new();
    if m.control {
        parts.push("Ctrl");
    }
    if m.shift {
        parts.push("Shift");
    }
    if m.option {
        parts.push("Alt");
    }
    if m.command {
        parts.push("Win");
    }
    assert(parts@.map_values(|p: &'static str| p@) =~= modifier_parts(m));
    parts
}

/// The Windows names of the pressed modifiers joined by `" + "` (`Ctrl + Shift`),
/// or `（没配）` when none is pressed.
pub fn modifiers_name(modifiers: Modifiers) -> (r: String)
    ensures
        r@ == modifiers_name_spec(modifiers),
{
    let parts = pressed_parts(modifiers);
    let ghost all = parts@.map_values(|p: &'static str| p@);
    if parts.len() == 0 {
        return "（没配）".to_owned();
    }
    let mut out = String::new();
    let mut i: usize = 0;
    while i < parts.len()
        invariant
            i <= parts@.len(),
            parts@.len() > 0,
            all == parts@.map_values(|p: &'static str| p@),
            out@ == joined_with(all.subrange(0, i as int), " + "@),
        decreases parts@.len() - i,
    {
        let ghost prefix = all.subrange(0, i + 1);
        assert(prefix.drop_last() =~= all.subrange(0, i as int));
        assert(prefix.last() == parts@[i as int]@);
        if i > 0 {
            append_chars(&mut out, " + ");
        } else {
            assert(all.subrange(0, 0) =~= Seq::<Seq<char>>::empty());
            assert(out@ =~= Seq::<char>::empty());
        }
        append_chars(&mut out, parts[i]);
        proof {
            if i == 0 {
                assert(out@ =~= prefix[0]);
            }
        }
        i = i + 1;
    }
    assert(all.subrange(0, parts@.len() as int) =~= all);
    out
}

/// The modifiers with a digit: `Ctrl + 数字`.
pub fn with_digit(modifiers: Modifiers) -> (r: String)
    ensures
        r@ == modifiers_name_spec(modifiers) + " + 数字"@,
{
    let mut out = modifiers_name(modifiers);
    append_chars(&mut out, " + 数字");
    out
}

/// The translation combination: the modifiers, `" + "` and the letter in
/// capitals (`Ctrl + Alt + T`).
pub fn combo_name(combo: KeyCombo) -> (r: String)
    ensures
        r@ == (modifiers_name_spec(combo.modifiers) + " + "@).push(ascii_upper(combo.key)),
{
    let mut out = modifiers_name(combo.modifiers);
    append_chars(&mut out, " + ");
    push_char(&mut out, ascii_uppercase(combo.key));
    out
}

/// The name of the page-key pair: `,.` is comma and full stop, `-=` is minus
/// and equals, anything else the square brackets.
pub open spec fn page_keys_name_spec(page_keys: Seq<char>) -> Seq<char> {
    if page_keys == ",."@ {
        "逗号、句号"@
    } else if page_keys == "-="@ {
        "减号、等号"@
    } else {
        "方括号 [ ]"@
    }
}

/// The name of the page-key pair (see [`page_keys_name_spec`]).
pub fn page_keys_name(page_keys: &str) -> (r: &'static str)
    ensures
        r@ == page_keys_name_spec(page_keys@),
{
    proof {
        reveal_strlit(",.");
        reveal_strlit("-=");
    }
    let n = page_keys.unicode_len();
    if n == 2 {
        let a = page_keys.get_char(0);
        let b = page_keys.get_char(1);
        if a == ',' && b == '.' {
            assert(page_keys@ =~= ",."@);
            return "逗号、句号";
        }
        if a == '-' && b == '=' {
            assert(page_keys@ =~= "-="@);
            return "减号、等号";
        }
        assert(page_keys@ != ",."@ && page_keys@ != "-="@) by {
            if page_keys@ == ",."@ {
                assert(page_keys@[0] == ',' && page_keys@[1] == '.');
            }
            if page_keys@ == "-="@ {
                assert(page_keys@[0] == '-' && page_keys@[1] == '=');
            }
        }
    }
    "方括号 [ ]"
}

/// The name of a prefix key: the key itself, or under shuangpin `Shift + `
/// and the key in capitals.
pub fn prefix_name(key: char, shuangpin: bool) -> (r: String)
    ensures
        r@ == (if shuangpin {
            "Shift + "@.push(ascii_upper(key))
        } else {
            seq![key]
        }),
{
    let mut out = String::new();
    if shuangpin {
        append_chars(&mut out, "Shift + ");
        push_char(&mut out, ascii_uppercase(key));
    } else {
        push_char(&mut out, key);
        assert(out@ =~= seq![key]);
    }
    out
}

} // verus!
