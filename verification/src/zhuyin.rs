//! The Dachen (大千) zhuyin keyboard: which key stands for which bopomofo
//! symbol or tone mark. Under zhuyin input every mapped key is a syllable key,
//! so the letter prefixes of the mode keys give way to it.

use vstd::prelude::*;

verus! {

/// The bopomofo symbol (or tone mark) that `key` types on the Dachen layout;
/// `None` for keys that are not part of the layout (the space bar is the first
/// tone and is handled by the composer, not by this table).
pub open spec fn dachen_symbol(key: char) -> Option<char> {
    match key {
        '1' => Some('ㄅ'),
        'q' => Some('ㄆ'),
        'a' => Some('ㄇ'),
        'z' => Some('ㄈ'),
        '2' => Some('ㄉ'),
        'w' => Some('ㄊ'),
        's' => Some('ㄋ'),
        'x' => Some('ㄌ'),
        'e' => Some('ㄍ'),
        'd' => Some('ㄎ'),
        'c' => Some('ㄏ'),
        'r' => Some('ㄐ'),
        'f' => Some('ㄑ'),
        'v' => Some('ㄒ'),
        '5' => Some('ㄓ'),
        't' => Some('ㄔ'),
        'g' => Some('ㄕ'),
        'b' => Some('ㄖ'),
        'y' => Some('ㄗ'),
        'h' => Some('ㄘ'),
        'n' => Some('ㄙ'),
        'u' => Some('ㄧ'),
        'j' => Some('ㄨ'),
        'm' => Some('ㄩ'),
        '8' => Some('ㄚ'),
        'i' => Some('ㄛ'),
        'k' => Some('ㄜ'),
        ',' => Some('ㄝ'),
        '9' => Some('ㄞ'),
        'o' => Some('ㄟ'),
        'l' => Some('ㄠ'),
        '.' => Some('ㄡ'),
        '0' => Some('ㄢ'),
        'p' => Some('ㄣ'),
        ';' => Some('ㄤ'),
        '/' => Some('ㄥ'),
        '-' => Some('ㄦ'),
        '6' => Some('ˊ'),
        '3' => Some('ˇ'),
        '4' => Some('ˋ'),
        '7' => Some('˙'),
        _ => None,
    }
}

/// The bopomofo symbol that `key` types on the Dachen layout, if any.
pub fn map_key(key: char) -> (r: Option<char>)
    ensures
        r == dachen_symbol(key),
{
    match key {
        '1' => Some('ㄅ'),
        'q' => Some('ㄆ'),
        'a' => Some('ㄇ'),
        'z' => Some('ㄈ'),
        '2' => Some('ㄉ'),
        'w' => Some('ㄊ'),
        's' => Some('ㄋ'),
        'x' => Some('ㄌ'),
        'e' => Some('ㄍ'),
        'd' => Some('ㄎ'),
        'c' => Some('ㄏ'),
        'r' => Some('ㄐ'),
        'f' => Some('ㄑ'),
        'v' => Some('ㄒ'),
        '5' => Some('ㄓ'),
        't' => Some('ㄔ'),
        'g' => Some('ㄕ'),
        'b' => Some('ㄖ'),
        'y' => Some('ㄗ'),
        'h' => Some('ㄘ'),
        'n' => Some('ㄙ'),
        'u' => Some('ㄧ'),
        'j' => Some('ㄨ'),
        'm' => Some('ㄩ'),
        '8' => Some('ㄚ'),
        'i' => Some('ㄛ'),
        'k' => Some('ㄜ'),
        ',' => Some('ㄝ'),
        '9' => Some('ㄞ'),
        'o' => Some('ㄟ'),
        'l' => Some('ㄠ'),
        '.' => Some('ㄡ'),
        '0' => Some('ㄢ'),
        'p' => Some('ㄣ'),
        ';' => Some('ㄤ'),
        '/' => Some('ㄥ'),
        '-' => Some('ㄦ'),
        '6' => Some('ˊ'),
        '3' => Some('ˇ'),
        '4' => Some('ˋ'),
        '7' => Some('˙'),
        _ => None,
    }
}

/// On the Dachen layout every letter and every digit types a bopomofo symbol
/// or a tone mark: under zhuyin input none of them is free for anything else.
pub proof fn lemma_letters_and_digits_are_syllable_keys(key: char)
    ensures
        ('a' <= key <= 'z' || '0' <= key <= '9') ==> dachen_symbol(key) is Some,
{
}

} // verus!
