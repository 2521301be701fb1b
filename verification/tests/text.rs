use qingjian::prompt::{clean, lcs_len, restates_after, strip_after, strip_before, syllables};
use qingjian::text::trimmed;

fn chars(s: &str) -> Vec<char> {
    s.chars().collect()
}

#[test]
fn trimming_follows_unicode_white_space() {
    assert_eq!(trimmed("\u{3000} 你好\t\n"), "你好");
    assert_eq!(trimmed("   "), "");
    assert_eq!(clean(" a\r\nb \n"), chars("ab"));
}

#[test]
fn the_longest_overlap_is_stripped() {
    assert_eq!(strip_before(&chars("天天向上"), &chars("今天天")), chars("向上"));
    assert_eq!(strip_before(&chars("向上"), &chars("")), chars("向上"));
    assert_eq!(strip_after(&chars("我们 走吧"), &chars("走吧。")), chars("我们"));
    assert_eq!(strip_after(&chars("你好"), &chars("世界")), chars("你好"));
}

#[test]
fn longest_common_subsequence_and_restating() {
    assert_eq!(lcs_len(&chars("abcbdab"), &chars("bdcaba")), 4);
    assert_eq!(lcs_len(&chars(""), &chars("abc")), 0);
    assert!(!restates_after(&chars("abc"), &chars("abc")), "short text after the cursor never counts");
    assert!(restates_after(&chars("xabcx"), &chars("abcd")));
    assert!(!restates_after(&chars("ab"), &chars("abcd")));
}

#[test]
fn pinyin_syllables() {
    assert_eq!(syllables("Zhang'Tai"), vec!["zhang", "tai"]);
    assert!(syllables("  ").is_empty());
}
