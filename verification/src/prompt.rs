//! Prompts for the cloud model and the assembly of its reply.
//!
//! The model is sent only what the user typed, the text around the cursor and
//! the first page of the candidate window. Of its reply the library keeps the
//! words that are new, and a sentence cleaned of what the model copied from the
//! text before or after the cursor.

use vstd::prelude::*;

use crate::text::{
    chars_equal, chars_of, is_white_space, is_white_space_char, same_run, skip_leading_space,
    skip_trailing_space, slice_chars, string_of, trim, trim_end, trim_start, trimmed,
};

verus! {

/// What a request to the model is for.
#[derive(Debug, Clone, Copy, PartialEq, Eq, Structural)]
pub enum PredictionKind {
    /// Words and a sentence for the input being composed.
    Compose,
    /// A question typed in pinyin, answered by a character or a short answer.
    Question,
    /// A translation of the selected text.
    Translate,
}

/// One request to the model.
#[derive(Debug, Clone)]
pub struct PredictionRequest {
    /// Orders the requests; the newest answer wins.
    pub sequence: u64,
    pub kind: PredictionKind,
    /// Text before the cursor.
    pub before: String,
    /// Text after the cursor.
    pub after: String,
    /// The local segmentation, syllables separated by `'`.
    pub pinyin: String,
    /// The keys the user actually typed.
    pub letters: String,
    /// The name of the input scheme.
    pub scheme: String,
    /// Whether traditional characters are wanted.
    pub traditional: bool,
    /// How many syllables the input has.
    pub syllables: usize,
    /// The first page of the candidate window.
    pub candidates: Vec<String>,
    /// The local conversion of a question.
    pub guess: String,
    /// At most this many words (0 asks for the sentence only, no words).
    pub max_items: usize,
    /// Whether a whole sentence is wanted.
    pub want_sentence: bool,
    /// The text to translate.
    pub text: String,
    /// The language to translate into (`zh`, `en`, `ja`).
    pub target_language: String,
}

/// A word suggested by the model, or an answer in the question mode.
#[derive(Debug, Clone, PartialEq, Eq)]
pub struct CloudWord {
    pub text: String,
    /// Lower-case syllables of its pinyin (empty for answers).
    pub syllables: Vec<String>,
    /// The reading shown beside an answer.
    pub reading: Option<String>,
}

/// The assembled reply.
#[derive(Debug, Clone, PartialEq, Eq)]
pub struct Reply {
    /// Cloud words (compose) or answers (question).
    pub words: Vec<CloudWord>,
    /// The sentence completion.
    pub sentence: Option<String>,
}

/// One word as the model wrote it; a missing field is empty.
#[derive(Debug, Clone)]
pub struct RawWord {
    pub text: String,
    pub pinyin: String,
}

/// The reply as the model wrote it; a missing field is empty.
#[derive(Debug, Clone)]
pub struct RawReply {
    pub words: Vec<RawWord>,
    pub sentence: Option<String>,
    /// The pinyin of the sentence's first syllables (no longer checked).
    pub sentence_pinyin: Option<String>,
    /// The answers of the question mode.
    pub answers: Vec<RawWord>,
}

/// The model of a [`CloudWord`]: text, syllables and reading as character sequences.
#[verifier::ext_equal]
pub struct WordModel {
    pub text: Seq<char>,
    pub syllables: Seq<Seq<char>>,
    pub reading: Option<Seq<char>>,
}

pub open spec fn opt_view(o: Option<String>) -> Option<Seq<char>> {
    match o {
        Some(s) => Some(s@),
        None => None,
    }
}

pub open spec fn strings_view(v: Seq<String>) -> Seq<Seq<char>> {
    v.map_values(|s: String| s@)
}

pub open spec fn raw_view(v: Seq<RawWord>) -> Seq<(Seq<char>, Seq<char>)> {
    v.map_values(|w: RawWord| (w.text@, w.pinyin@))
}

impl CloudWord {
    pub open spec fn model(self) -> WordModel {
        WordModel {
            text: self.text@,
            syllables: strings_view(self.syllables@),
            reading: opt_view(self.reading),
        }
    }
}

pub open spec fn words_model(v: Seq<CloudWord>) -> Seq<WordModel> {
    v.map_values(|w: CloudWord| w.model())
}

impl Default for Reply {
    fn default() -> (r: Self)
        ensures
            r.words@.len() == 0,
            r.sentence is None,
    {
        Reply { words: Vec::new(), sentence: None }
    }
}

impl Reply {
    /// Neither words nor a sentence.
    pub fn is_empty(&self) -> (r: bool)
        ensures
            r == (self.words@.len() == 0 && self.sentence is None),
    {
        self.words.len() == 0 && self.sentence.is_none()
    }
}

// ---------------------------------------------------------------------------
// Cleaning text

pub open spec fn is_line_break(c: char) -> bool {
    c == '\n' || c == '\r'
}

/// `s` without its line breaks.
pub open spec fn without_line_breaks(s: Seq<char>) -> Seq<char>
    decreases s.len(),
{
    if s.len() == 0 {
        s
    } else if is_line_break(s.last()) {
        without_line_breaks(s.drop_last())
    } else {
        without_line_breaks(s.drop_last()).push(s.last())
    }
}

/// Trimmed at both ends, with every line break dropped.
pub open spec fn clean_spec(s: Seq<char>) -> Seq<char> {
    without_line_breaks(trim(s))
}

/// Trims `text` and drops its line breaks.
pub fn clean(text: &str) -> (r: Vec<char>)
    ensures
        r@ == clean_spec(text@),
{
    let v = chars_of(text);
    let lo = skip_leading_space(&v, 0, v.len());
    assert(v@.subrange(0, v.len() as int) =~= v@);
    let hi = skip_trailing_space(&v, lo, v.len());
    let mut out: Vec<char> = Vec::new();
    let mut i = lo;
    while i < hi
        invariant
            lo <= i <= hi <= v.len(),
            out@ == without_line_breaks(v@.subrange(lo as int, i as int)),
        decreases hi - i,
    {
        assert(v@.subrange(lo as int, i + 1).drop_last() =~= v@.subrange(lo as int, i as int));
        let c = v[i];
        if c != '\n' && c != '\r' {
            out.push(c);
        }
        i = i + 1;
    }
    out
}

// ---------------------------------------------------------------------------
// What the model copied from the text around the cursor

/// The last `k` characters of `before` are the first `k` of `s`.
pub open spec fn overlaps_before(before: Seq<char>, s: Seq<char>, k: int) -> bool {
    0 <= k <= before.len() && k <= s.len() && before.subrange(before.len() - k, before.len() as int)
        == s.subrange(0, k)
}

/// The last `k` characters of `s` are the first `k` of `after`.
pub open spec fn overlaps_after(s: Seq<char>, after: Seq<char>, k: int) -> bool {
    0 <= k <= after.len() && k <= s.len() && s.subrange(s.len() - k, s.len() as int)
        == after.subrange(0, k)
}

/// The longest overlap of at most `k` characters between the end of `before`
/// and the start of `s` (0 when there is none).
pub open spec fn longest_before(before: Seq<char>, s: Seq<char>, k: nat) -> nat
    decreases k,
{
    if k == 0 {
        0
    } else if overlaps_before(before, s, k as int) {
        k
    } else {
        longest_before(before, s, (k - 1) as nat)
    }
}

/// The longest overlap of at most `k` characters between the end of `s` and the
/// start of `after` (0 when there is none).
pub open spec fn longest_after(s: Seq<char>, after: Seq<char>, k: nat) -> nat
    decreases k,
{
    if k == 0 {
        0
    } else if overlaps_after(s, after, k as int) {
        k
    } else {
        longest_after(s, after, (k - 1) as nat)
    }
}

pub open spec fn min_len(a: Seq<char>, b: Seq<char>) -> nat {
    if a.len() <= b.len() {
        a.len()
    } else {
        b.len()
    }
}

/// `s` without the longest start that repeats the end of `before`, then
/// without leading white space; `s` itself when nothing overlaps.
pub open spec fn strip_before_spec(s: Seq<char>, before: Seq<char>) -> Seq<char> {
    let k = longest_before(before, s, min_len(before, s));
    if k == 0 {
        s
    } else {
        trim_start(s.subrange(k as int, s.len() as int))
    }
}

/// `s` without the longest end that repeats the start of `after`, then without
/// trailing white space; `s` itself when nothing overlaps.
pub open spec fn strip_after_spec(s: Seq<char>, after: Seq<char>) -> Seq<char> {
    let k = longest_after(s, after, min_len(after, s));
    if k == 0 {
        s
    } else {
        trim_end(s.subrange(0, s.len() - k))
    }
}

/// The overlap found is the longest one: no longer end of `before` starts `s`.
pub proof fn lemma_longest_before_is_longest(before: Seq<char>, s: Seq<char>, k: nat)
    ensures
        longest_before(before, s, k) <= k,
        longest_before(before, s, k) > 0 ==> overlaps_before(before, s, longest_before(before, s, k) as int),
        forall|j: int| longest_before(before, s, k) < j <= k ==> !overlaps_before(before, s, j),
    decreases k,
{
    if k > 0 {
        lemma_longest_before_is_longest(before, s, (k - 1) as nat);
    }
}

/// The overlap found is the longest one: no longer end of `s` starts `after`.
pub proof fn lemma_longest_after_is_longest(s: Seq<char>, after: Seq<char>, k: nat)
    ensures
        longest_after(s, after, k) <= k,
        longest_after(s, after, k) > 0 ==> overlaps_after(s, after, longest_after(s, after, k) as int),
        forall|j: int| longest_after(s, after, k) < j <= k ==> !overlaps_after(s, after, j),
    decreases k,
{
    if k > 0 {
        lemma_longest_after_is_longest(s, after, (k - 1) as nat);
    }
}

/// Drops the start of `sentence` that repeats the end of `before` (the longest
/// such overlap), then the white space after it.
pub fn strip_before(sentence: &Vec<char>, before: &Vec<char>) -> (r: Vec<char>)
    ensures
        r@ == strip_before_spec(sentence@, before@),
{
    let m = if before.len() <= sentence.len() {
        before.len()
    } else {
        sentence.len()
    };
    let mut k = m;
    while k > 0
        invariant
            k <= m,
            m == min_len(before@, sentence@),
            longest_before(before@, sentence@, m as nat) == longest_before(before@, sentence@, k as nat),
        decreases k,
    {
        if same_run(before, before.len() - k, sentence, 0, k) {
            let from = skip_leading_space(sentence, k, sentence.len());
            return slice_chars(sentence, from, sentence.len());
        }
        k = k - 1;
    }
    slice_chars(sentence, 0, sentence.len())
}

/// Drops the end of `sentence` that repeats the start of `after` (the longest
/// such overlap), then the white space before it.
pub fn strip_after(sentence: &Vec<char>, after: &Vec<char>) -> (r: Vec<char>)
    ensures
        r@ == strip_after_spec(sentence@, after@),
{
    let m = if after.len() <= sentence.len() {
        after.len()
    } else {
        sentence.len()
    };
    let mut k = m;
    while k > 0
        invariant
            k <= m,
            m == min_len(after@, sentence@),
            longest_after(sentence@, after@, m as nat) == longest_after(sentence@, after@, k as nat),
        decreases k,
    {
        if same_run(sentence, sentence.len() - k, after, 0, k) {
            let to = skip_trailing_space(sentence, 0, sentence.len() - k);
            return slice_chars(sentence, 0, to);
        }
        k = k - 1;
    }
    slice_chars(sentence, 0, sentence.len())
}

/// Length of the longest common subsequence of `a` and `b`.
pub open spec fn lcs(a: Seq<char>, b: Seq<char>) -> nat
    decreases a.len() + b.len(),
{
    if a.len() == 0 || b.len() == 0 {
        0
    } else if a.last() == b.last() {
        lcs(a.drop_last(), b.drop_last()) + 1
    } else {
        let x = lcs(a.drop_last(), b);
        let y = lcs(a, b.drop_last());
        if x >= y {
            x
        } else {
            y
        }
    }
}

/// A common subsequence is no longer than either sequence.
pub proof fn lemma_lcs_bounded(a: Seq<char>, b: Seq<char>)
    ensures
        lcs(a, b) <= a.len(),
        lcs(a, b) <= b.len(),
    decreases a.len() + b.len(),
{
    if a.len() > 0 && b.len() > 0 {
        lemma_lcs_bounded(a.drop_last(), b.drop_last());
        lemma_lcs_bounded(a.drop_last(), b);
        lemma_lcs_bounded(a, b.drop_last());
    }
}

/// Length of the longest common subsequence, by rows of the usual table.
pub fn lcs_len(a: &Vec<char>, b: &Vec<char>) -> (r: usize)
    ensures
        r == lcs(a@, b@),
{
    let m = b.len();
    let mut prev: Vec<usize> = Vec::new();
    prev.push(0);
    let mut j: usize = 0;
    while j < m
        invariant
            j <= m,
            m == b.len(),
            prev.len() == j + 1,
            forall|q: int| 0 <= q <= j ==> prev@[q] == 0,
        decreases m - j,
    {
        prev.push(0);
        j = j + 1;
    }
    assert forall|q: int| 0 <= q <= m implies prev@[q] == lcs(a@.subrange(0, 0), b@.subrange(0, q)) by {}
    let mut i: usize = 0;
    while i < a.len()
        invariant
            i <= a.len(),
            m == b.len(),
            prev.len() == m + 1,
            forall|q: int| 0 <= q <= m ==> #[trigger] prev@[q] == lcs(a@.subrange(0, i as int), b@.subrange(0, q)),
        decreases a.len() - i,
    {
        let x = a[i];
        let ghost ai = a@.subrange(0, i as int);
        let ghost ai1 = a@.subrange(0, i + 1);
        assert(ai1.drop_last() =~= ai);
        let mut cur: Vec<usize> = Vec::new();
        cur.push(0);
        assert(cur@[0] == lcs(ai1, b@.subrange(0, 0)));
        let mut j: usize = 0;
        while j < m
            invariant
                j <= m,
                m == b.len(),
                i < a.len(),
                x == a@[i as int],
                ai == a@.subrange(0, i as int),
                ai1 == a@.subrange(0, i + 1),
                ai1.drop_last() == ai,
                prev.len() == m + 1,
                cur.len() == j + 1,
                forall|q: int| 0 <= q <= m ==> #[trigger] prev@[q] == lcs(ai, b@.subrange(0, q)),
                forall|q: int| 0 <= q <= j ==> #[trigger] cur@[q] == lcs(ai1, b@.subrange(0, q)),
            decreases m - j,
        {
            let ghost bj1 = b@.subrange(0, j + 1);
            assert(bj1.drop_last() =~= b@.subrange(0, j as int));
            assert(prev@[j as int] == lcs(ai, b@.subrange(0, j as int)));
            assert(prev@[j + 1] == lcs(ai, bj1));
            assert(cur@[j as int] == lcs(ai1, b@.subrange(0, j as int)));
            let v = if x == b[j] {
                proof {
                    lemma_lcs_bounded(ai, b@.subrange(0, j as int));
                }
                prev[j] + 1
            } else {
                if cur[j] >= prev[j + 1] {
                    cur[j]
                } else {
                    prev[j + 1]
                }
            };
            assert(v == lcs(ai1, bj1));
            cur.push(v);
            j = j + 1;
        }
        prev = cur;
        i = i + 1;
    }
    assert(a@.subrange(0, a.len() as int) =~= a@);
    assert(b@.subrange(0, m as int) =~= b@);
    prev[m]
}

/// Whether `sentence` restates `after`: `after` has at least four characters
/// and at least three quarters of them form a subsequence of `sentence`.
pub open spec fn restates_after_spec(sentence: Seq<char>, after: Seq<char>) -> bool {
    after.len() >= 4 && lcs(sentence, after) * 4 >= after.len() * 3
}

/// A sentence made mostly of the characters of `after` restates it; an
/// `after` shorter than four characters never counts.
pub fn restates_after(sentence: &Vec<char>, after: &Vec<char>) -> (r: bool)
    ensures
        r == restates_after_spec(sentence@, after@),
{
    if after.len() < 4 {
        return false;
    }
    let l = lcs_len(sentence, after);
    (l as u128) * 4 >= (after.len() as u128) * 3
}

// ---------------------------------------------------------------------------
// Syllables of a pinyin string

/// Syllables are separated by white space or by `'`.
pub open spec fn is_syllable_separator(c: char) -> bool {
    is_white_space(c) || c == '\''
}

/// `c` with an ASCII capital letter made small (`char::to_ascii_lowercase`).
pub open spec fn ascii_lower(c: char) -> char {
    if 65 <= c as u32 <= 90 {
        ((c as u32) + 32) as char
    } else {
        c
    }
}

/// Reading `s` from the left: the syllables already complete, and the one in
/// progress (lower-cased).
pub open spec fn syllable_scan(s: Seq<char>) -> (Seq<Seq<char>>, Seq<char>)
    decreases s.len(),
{
    if s.len() == 0 {
        (Seq::empty(), Seq::empty())
    } else {
        let (done, cur) = syllable_scan(s.drop_last());
        let c = s.last();
        if is_syllable_separator(c) {
            if cur.len() > 0 {
                (done.push(cur), Seq::empty())
            } else {
                (done, cur)
            }
        } else {
            (done, cur.push(ascii_lower(c)))
        }
    }
}

/// The non-empty pieces of `s` between separators, lower-cased.
pub open spec fn syllables_spec(s: Seq<char>) -> Seq<Seq<char>> {
    let (done, cur) = syllable_scan(s);
    if cur.len() > 0 {
        done.push(cur)
    } else {
        done
    }
}

pub(crate) fn ascii_lowercase(c: char) -> (r: char)
    ensures
        r == ascii_lower(c),
{
    let u = c as u32;
    if 65 <= u && u <= 90 {
        ((u + 32) as u8) as char
    } else {
        c
    }
}

/// Splits a pinyin string into lower-case syllables.
pub fn syllables(pinyin: &str) -> (r: Vec<String>)
    ensures
        strings_view(r@) == syllables_spec(pinyin@),
{
    let v = chars_of(pinyin);
    let mut done: Vec<String> = Vec::new();
    let mut cur: Vec<char> = Vec::new();
    let mut i: usize = 0;
    while i < v.len()
        invariant
            i <= v.len(),
            v@ == pinyin@,
            strings_view(done@) == syllable_scan(v@.subrange(0, i as int)).0,
            cur@ == syllable_scan(v@.subrange(0, i as int)).1,
        decreases v.len() - i,
    {
        assert(v@.subrange(0, i + 1).drop_last() =~= v@.subrange(0, i as int));
        let c = v[i];
        if is_white_space_char(c) || c == '\'' {
            if cur.len() > 0 {
                let piece = string_of(&cur, 0, cur.len());
                assert(cur@.subrange(0, cur.len() as int) =~= cur@);
                done.push(piece);
                assert(strings_view(done@) =~= syllable_scan(v@.subrange(0, i + 1)).0);
                cur = Vec::new();
            }
        } else {
            cur.push(ascii_lowercase(c));
        }
        i = i + 1;
    }
    assert(v@.subrange(0, v.len() as int) =~= v@);
    if cur.len() > 0 {
        let piece = string_of(&cur, 0, cur.len());
        assert(cur@.subrange(0, cur.len() as int) =~= cur@);
        done.push(piece);
        assert(strings_view(done@) =~= syllables_spec(pinyin@));
    }
    done
}

// ---------------------------------------------------------------------------
// Words and answers

pub open spec fn texts(ws: Seq<WordModel>) -> Seq<Seq<char>> {
    ws.map_values(|w: WordModel| w.text)
}

/// The word a raw word becomes: its cleaned text, and for a compose word its
/// syllables, for an answer its cleaned reading (when not empty).
pub open spec fn word_of(raw: (Seq<char>, Seq<char>), answers: bool) -> WordModel {
    if answers {
        let reading = clean_spec(raw.1);
        WordModel {
            text: clean_spec(raw.0),
            syllables: Seq::empty(),
            reading: if reading.len() > 0 {
                Some(reading)
            } else {
                None
            },
        }
    } else {
        WordModel { text: clean_spec(raw.0), syllables: syllables_spec(raw.1), reading: None }
    }
}

/// Goes through the raw words in order after `acc`: a word is skipped when its
/// text is empty, excluded, or already taken; the list ends once it holds `max`
/// words (so it stays empty when `max` is 0).
pub open spec fn collect_from(
    raw: Seq<(Seq<char>, Seq<char>)>,
    excluded: Seq<Seq<char>>,
    max: nat,
    answers: bool,
    acc: Seq<WordModel>,
) -> Seq<WordModel>
    decreases raw.len(),
{
    if raw.len() == 0 {
        acc
    } else {
        let w = word_of(raw[0], answers);
        if w.text.len() == 0 || excluded.contains(w.text) || texts(acc).contains(w.text) {
            collect_from(raw.drop_first(), excluded, max, answers, acc)
        } else if acc.len() >= max {
            acc
        } else if acc.len() + 1 >= max {
            acc.push(w)
        } else {
            collect_from(raw.drop_first(), excluded, max, answers, acc.push(w))
        }
    }
}

/// The words kept of `raw`.
pub open spec fn collected(
    raw: Seq<(Seq<char>, Seq<char>)>,
    excluded: Seq<Seq<char>>,
    max: nat,
    answers: bool,
) -> Seq<WordModel> {
    collect_from(raw, excluded, max, answers, Seq::empty())
}

/// Whether one of the strings of `list` is `text`.
fn contains_text(list: &Vec<String>, text: &Vec<char>) -> (r: bool)
    ensures
        r == strings_view(list@).contains(text@),
{
    let mut k: usize = 0;
    while k < list.len()
        invariant
            k <= list.len(),
            forall|q: int| 0 <= q < k ==> strings_view(list@)[q] != text@,
        decreases list.len() - k,
    {
        let item = chars_of(list[k].as_str());
        if chars_equal(&item, text) {
            assert(strings_view(list@)[k as int] == text@);
            return true;
        }
        k = k + 1;
    }
    false
}

/// Whether one of `words` has the text `text`.
fn has_text(words: &Vec<CloudWord>, text: &Vec<char>) -> (r: bool)
    ensures
        r == texts(words_model(words@)).contains(text@),
{
    let mut k: usize = 0;
    while k < words.len()
        invariant
            k <= words.len(),
            forall|q: int| 0 <= q < k ==> texts(words_model(words@))[q] != text@,
        decreases words.len() - k,
    {
        let item = chars_of(words[k].text.as_str());
        if chars_equal(&item, text) {
            assert(texts(words_model(words@))[k as int] == text@);
            return true;
        }
        k = k + 1;
    }
    false
}

/// The word made of `raw` (see [`word_of`]).
fn make_word(raw: &RawWord, text: Vec<char>, answers: bool) -> (r: CloudWord)
    requires
        text@ == clean_spec(raw.text@),
    ensures
        r.model() == word_of((raw.text@, raw.pinyin@), answers),
{
    let t = string_of(&text, 0, text.len());
    assert(text@.subrange(0, text.len() as int) =~= text@);
    if answers {
        let reading = clean(raw.pinyin.as_str());
        let r = if reading.len() > 0 {
            assert(reading@.subrange(0, reading.len() as int) =~= reading@);
            Some(string_of(&reading, 0, reading.len()))
        } else {
            None
        };
        let w = CloudWord { text: t, syllables: Vec::new(), reading: r };
        assert(w.model() =~= word_of((raw.text@, raw.pinyin@), answers));
        w
    } else {
        let w = CloudWord { text: t, syllables: syllables(raw.pinyin.as_str()), reading: None };
        assert(w.model() =~= word_of((raw.text@, raw.pinyin@), answers));
        w
    }
}

/// The kept words of `raw`, with `excluded` texts left out.
fn collect_words(raw: &Vec<RawWord>, excluded: &Vec<String>, max: usize, answers: bool) -> (r: Vec<
    CloudWord,
>)
    ensures
        words_model(r@) == collected(raw_view(raw@), strings_view(excluded@), max as nat, answers),
{
    let ghost rv = raw_view(raw@);
    let ghost ex = strings_view(excluded@);
    let mut out: Vec<CloudWord> = Vec::new();
    let mut i: usize = 0;
    assert(rv.subrange(0, rv.len() as int) =~= rv);
    assert(words_model(out@) =~= Seq::<WordModel>::empty());
    while i < raw.len()
        invariant
            i <= raw.len(),
            rv == raw_view(raw@),
            ex == strings_view(excluded@),
            collected(rv, ex, max as nat, answers) == collect_from(
                rv.subrange(i as int, rv.len() as int),
                ex,
                max as nat,
                answers,
                words_model(out@),
            ),
        decreases raw.len() - i,
    {
        let ghost rest = rv.subrange(i as int, rv.len() as int);
        assert(rest.drop_first() =~= rv.subrange(i + 1, rv.len() as int));
        assert(rest[0] == (raw@[i as int].text@, raw@[i as int].pinyin@));
        let text = clean(raw[i].text.as_str());
        if text.len() == 0 || contains_text(excluded, &text) || has_text(&out, &text) {
            i = i + 1;
        } else if out.len() >= max {
            return out;
        } else {
            let w = make_word(&raw[i], text, answers);
            let ghost before_push = words_model(out@);
            out.push(w);
            assert(words_model(out@) =~= before_push.push(w.model()));
            if out.len() >= max {
                return out;
            }
            i = i + 1;
        }
    }
    assert(rv.subrange(i as int, rv.len() as int) =~= Seq::<(Seq<char>, Seq<char>)>::empty());
    out
}

/// The answers of the question mode: cleaned, without empty or repeated texts,
/// at most `max_items` of them, each with its reading.
pub fn parse_answers(answers: &Vec<RawWord>, max_items: usize) -> (r: Reply)
    ensures
        words_model(r.words@) == collected(raw_view(answers@), Seq::empty(), max_items as nat, true),
        r.sentence is None,
{
    let none: Vec<String> = Vec::new();
    assert(strings_view(none@) =~= Seq::<Seq<char>>::empty());
    Reply { words: collect_words(answers, &none, max_items, true), sentence: None }
}

// ---------------------------------------------------------------------------
// The sentence, and the whole reply

/// The sentence kept of the model's one: cleaned, stripped of what repeats the
/// end of `before` and the start of `after`; kept when not empty, not a repeat
/// of a first-page candidate (only checked when nothing follows the cursor),
/// and not a restatement of `after`.
pub open spec fn compose_sentence(
    raw: Option<Seq<char>>,
    want: bool,
    before: Seq<char>,
    after: Seq<char>,
    candidates: Seq<Seq<char>>,
) -> Option<Seq<char>> {
    if want && raw is Some {
        let s = strip_after_spec(strip_before_spec(clean_spec(raw->0), before), after);
        if s.len() > 0 && !(after.len() == 0 && candidates.contains(s)) && !restates_after_spec(
            s,
            after,
        ) {
            Some(s)
        } else {
            None
        }
    } else {
        None
    }
}

/// A translation keeps its line breaks: only the ends are trimmed, and an empty
/// one is dropped.
pub open spec fn translation(raw: Option<Seq<char>>) -> Option<Seq<char>> {
    match raw {
        Some(s) => if trim(s).len() > 0 {
            Some(trim(s))
        } else {
            None
        },
        None => None,
    }
}

/// The reply assembled for `request` from what the model wrote.
pub open spec fn reply_matches(r: Reply, raw: RawReply, request: PredictionRequest) -> bool {
    match request.kind {
        PredictionKind::Question => {
            &&& words_model(r.words@) == collected(
                raw_view(raw.answers@),
                Seq::empty(),
                request.max_items as nat,
                true,
            )
            &&& r.sentence is None
        },
        PredictionKind::Translate => {
            &&& r.words@.len() == 0
            &&& opt_view(r.sentence) == translation(opt_view(raw.sentence))
        },
        PredictionKind::Compose => {
            &&& words_model(r.words@) == collected(
                raw_view(raw.words@),
                strings_view(request.candidates@),
                request.max_items as nat,
                false,
            )
            &&& opt_view(r.sentence) == compose_sentence(
                opt_view(raw.sentence),
                request.want_sentence,
                request.before@,
                request.after@,
                strings_view(request.candidates@),
            )
        },
    }
}

fn sentence_of(raw: &String, request: &PredictionRequest) -> (r: Option<String>)
    requires
        request.want_sentence,
    ensures
        opt_view(r) == compose_sentence(
            Some(raw@),
            true,
            request.before@,
            request.after@,
            strings_view(request.candidates@),
        ),
{
    let cleaned = clean(raw.as_str());
    let before = chars_of(request.before.as_str());
    let after = chars_of(request.after.as_str());
    let s = strip_after(&strip_before(&cleaned, &before), &after);
    let duplicated_local = after.len() == 0 && contains_text(&request.candidates, &s);
    if s.len() > 0 && !duplicated_local && !restates_after(&s, &after) {
        assert(s@.subrange(0, s.len() as int) =~= s@);
        Some(string_of(&s, 0, s.len()))
    } else {
        None
    }
}

/// Assembles the reply of the model for `request`. Question: the answers.
/// Translate: the trimmed translation. Compose: the new words (not on the first
/// page, not repeated, at most `max_items`) and, when a
/// sentence is wanted, the cleaned sentence.
pub fn assemble_reply(raw: &RawReply, request: &PredictionRequest) -> (r: Reply)
    ensures
        reply_matches(r, *raw, *request),
{
    match request.kind {
        PredictionKind::Question => parse_answers(&raw.answers, request.max_items),
        PredictionKind::Translate => {
            let sentence = match &raw.sentence {
                Some(s) => {
                    let t = trimmed(s.as_str());
                    if t.as_str().unicode_len() > 0 {
                        Some(t)
                    } else {
                        None
                    }
                },
                None => None,
            };
            Reply { words: Vec::new(), sentence }
        },
        PredictionKind::Compose => {
            let words = collect_words(&raw.words, &request.candidates, request.max_items, false);
            let sentence = match &raw.sentence {
                Some(s) => {
                    if request.want_sentence {
                        sentence_of(s, request)
                    } else {
                        None
                    }
                },
                None => None,
            };
            Reply { words, sentence }
        },
    }
}

// ---------------------------------------------------------------------------
// System prompts

/// The system prompt of the compose mode.
pub const SYSTEM_PROMPT: &'static str = "\
你是一个中文输入法的联想引擎。用户正在打字、还没选词，你要猜他接下来想打什么。你会收到一段 JSON：

- letters：**用户实际敲的原始按键**，没有加工过。可能全是拼音、可能整个是英文词、可能中英夹杂（`jintian qu gongsi`、
  `buzhidao linux zenme yong`、`javashiyimenbianchengyuyan`），也可能带简单的错字 / 漏字 / 多字 / 前后颠倒。
- scheme：用户的**输入方式**（`全拼` / `小鹤双拼` / `自然码` / `微软双拼` / `搜狗双拼` / `小浪双拼` / `大千注音` /
  `五笔（86 版）` / `五笔（86 版）+ 全拼（混输）` 这类）。双拼与注音的 letters **已经还原成全拼**，按拼音理解即可；
  **五笔（以及混输里的五笔部分）的 letters 是字根编码、不是拼音**（`wqiy` 是「你」、`trnt` 是「我」），要按五笔理解。
- traditional：true 表示用户要**繁体**输出（默认 false 简体），words 与 sentence 直接用对应字形写。
- before / after：光标前后的文本（可能是空串）。**判断用户想写什么主要靠它们**：before 是「高等数学是」时
  `daxue` 该出「大学」而不是「大雪」。
- candidates：**候选窗口第一页已经给出的候选**（本地词库 / 本地整句转换的结果，按顺序）。它们只是本地能给的东西，
  可能不对、也可能不完整，别被带偏。
- max_items：words 最多要几条（0 表示只要整句，不要词）。
- want_sentence：要不要整句预测。

输出 JSON：{\"words\": [{\"text\": \"…\"}], \"sentence\": \"…\" 或 null}

words（0 到 max_items 条，按可能性从高到低）：
- 按 letters 推断用户想打什么：他敲的可能是错拼、可能是简拼（单字母是声母）、可能夹着英文词或数字；忽略简单拼写错误。
  例：`zhgdoima` → 这个东西吗；`javashiyimenbianchengyuyan` → 只要词就给 Java 这类英文词。
- 中英混排时该给什么就给什么：中文语境里更常用英文说法就写英文原样（Docker、API、Linux），别硬翻成中文。
- 只给真实存在的词或短语，不要生造、不要凑数；不确定就给空数组。
- **不要重复 candidates 里已经有的候选**（包括它的同音变体）；本地已经给对了就不必再给。
- 你的价值在本地给不出的：术语、新词、人名机构名、缩写、按上下文选对的同音词、错拼纠正。

sentence（want_sentence 为 true 时给，否则 null）：**替换用户这段输入**的一句话。
- 有 after 时，sentence 只填 before 与 after 中间缺的那一小段（通常 1 到 6 个字），**不要重复 after、连改写也不行**，
  不要带句末标点。例：before=高等数学是、letters=jichu、after=最重要的基础课程之一 → sentence=\"基础\"。
- 没有 after 时，给一条完整的话，接住 before 的话题往下写、要有信息量；不要「是一种很好的选择」这类空话，
  也不要把 before 抄一遍。例：before=笛卡儿积、letters=shiyizhong → sentence=\"是一种二元运算\"。
- 以 letters 敲出来的东西开头（用户敲什么就补什么）。实在想不出合适的就给 null。
- 可以中英混排（我不了解Linux系统、部署完成后调用API验证），数字也常混在里面：按中文书写习惯来 ——
  金额、数量、序号、年份、代码写阿拉伯数字（我花 123 元、第 3 章、2024 年），口语量词与成语里的固定说法写汉字
  （三个月、一个人、一心一意）。用户敲的拼音按汉字念（`yibaiershisanyuan` 就是 123 元），照念法还原。
- **letters 为空是「续写」**（用户没敲东西、直接按了 Tab 让你接着写）：只看 before / after 往下写，
  不给词、sentence 就是接着写的内容。

示例（输入 → 输出）：
1. {\"letters\":\"javashiyimenbianchengyuyan\",\"scheme\":\"全拼\",\"traditional\":false,\"before\":\"\",\"after\":\"\",\"candidates\":[\"就啊\",\"骄傲\"],\"max_items\":0,\"want_sentence\":true}
   → {\"words\":[],\"sentence\":\"Java 是一门编程语言\"}
2. {\"letters\":\"wqiy\",\"scheme\":\"五笔（86 版）\",\"traditional\":false,\"before\":\"\",\"after\":\"\",\"candidates\":[\"你\"],\"max_items\":4,\"want_sentence\":false}
   → {\"words\":[{\"text\":\"你好\"}],\"sentence\":null}
3. {\"letters\":\"zhege dongxi zenme yong\",\"scheme\":\"全拼\",\"traditional\":false,\"before\":\"\",\"after\":\"\",\"candidates\":[\"这个\"],\"max_items\":4,\"want_sentence\":false}
   → {\"words\":[{\"text\":\"这个东西怎么用\"}],\"sentence\":null}
4. {\"letters\":\"daxue\",\"scheme\":\"全拼\",\"traditional\":false,\"before\":\"高等数学是\",\"after\":\"最重要的基础课程之一\",\"candidates\":[\"大学\",\"大雪\"],\"max_items\":4,\"want_sentence\":true}
   → {\"words\":[],\"sentence\":\"大学\"}
5. {\"letters\":\"docker\",\"scheme\":\"全拼\",\"traditional\":false,\"before\":\"用\",\"after\":\"部署服务\",\"candidates\":[\"多克\"],\"max_items\":4,\"want_sentence\":true}
   → {\"words\":[{\"text\":\"Docker\"}],\"sentence\":\"Docker\"}
6. {\"letters\":\"\",\"scheme\":\"全拼\",\"traditional\":false,\"before\":\"笛卡儿积\",\"after\":\"\",\"candidates\":[],\"max_items\":0,\"want_sentence\":true}
   → {\"words\":[],\"sentence\":\"是一种二元运算\"}

不解释、不加引号、不加序号，只输出 JSON。";

/// The system prompt of the question mode.
pub const QUESTION_SYSTEM_PROMPT: &'static str = "\
你是一个拼音输入法的问字助手。用户以 ? 开头用**拼音**敲了一个问题，你会收到 JSON：\
letters（实际敲的字母，可能有错字、漏字、多字）、pinyin（输入法的切分，' 分隔，可能切错）、\
question（输入法本地把拼音转成的汉字，可能有错字，只是帮你理解问题；为空就自己还原）、max_items。

用户是**打不出某个字**才来问的：问题通常是问某个汉字——描述字形（san ge mu shi shen me zi → 森）、报部件（mu mu mu → 森）、\
描述读音或意思（biao shi gao xing de zi → 悦 / 欣 / 喜）；也可能是要一个很短的事实答案（fa guo shou du → 巴黎）。\
先把拼音还原成问题，再作答。**只给答案，绝不要把问题本身或它的汉字写法当作答案**：\
「三个直是什么字」答 矗，不答「三个直是什么字」；答案通常是一个字，几个可能的字各占一条。

输出 JSON：{\"answers\": [{\"text\": \"…\", \"pinyin\": \"…\"}]}

answers：1 到 max_items 个，按可能性排序。text 是能直接上屏的字、词或短答案，不要解释；\
pinyin 是 text 的带声调拼音（如 sēn），非中文答案给空字符串。不确定就少给，实在不懂就给空数组。";

/// The system prompt of a translation.
pub const TRANSLATE_SYSTEM_PROMPT: &'static str = "\
你是一个输入法的翻译助手。用户在应用里选中了一段文字并按了翻译快捷键，你会收到 JSON：\
text（选中的原文）、target_language（目标语言代码：zh 中文、en 英语、ja 日语）。\
把 text 完整、自然地译成目标语言，保留原文的语气、换行与标点习惯；\
原文已经是目标语言时：目标不是中文就改译成中文，目标是中文就原样返回。\
不要解释、不要加引号、不要加「译文：」之类的前缀。\
输出 JSON：{\"sentence\": \"译文\"}";

/// The system prompt for the kind of `request`.
pub fn system_prompt(request: &PredictionRequest) -> (r: &'static str)
    ensures
        r@ == (match request.kind {
            PredictionKind::Compose => SYSTEM_PROMPT@,
            PredictionKind::Question => QUESTION_SYSTEM_PROMPT@,
            PredictionKind::Translate => TRANSLATE_SYSTEM_PROMPT@,
        }),
{
    match request.kind {
        PredictionKind::Compose => SYSTEM_PROMPT,
        PredictionKind::Question => QUESTION_SYSTEM_PROMPT,
        PredictionKind::Translate => TRANSLATE_SYSTEM_PROMPT,
    }
}

// ---------------------------------------------------------------------------
// What every reply keeps

/// Every word has a text, none of them is excluded, and no two are the same.
pub open spec fn all_new(ws: Seq<WordModel>, excluded: Seq<Seq<char>>) -> bool {
    &&& forall|i: int| 0 <= i < ws.len() ==> (#[trigger] ws[i]).text.len() > 0
    &&& forall|i: int| 0 <= i < ws.len() ==> !excluded.contains((#[trigger] ws[i]).text)
    &&& forall|i: int, j: int| 0 <= i < j < ws.len() ==> (#[trigger] ws[i]).text != (#[trigger] ws[j]).text
}

proof fn lemma_collect_from_new(
    raw: Seq<(Seq<char>, Seq<char>)>,
    excluded: Seq<Seq<char>>,
    max: nat,
    answers: bool,
    acc: Seq<WordModel>,
)
    requires
        all_new(acc, excluded),
        acc.len() <= max,
    ensures
        all_new(collect_from(raw, excluded, max, answers, acc), excluded),
        collect_from(raw, excluded, max, answers, acc).len() <= max,
        collect_from(raw, excluded, max, answers, acc).len() <= acc.len() + raw.len(),
    decreases raw.len(),
{
    if raw.len() > 0 {
        let w = word_of(raw[0], answers);
        if w.text.len() == 0 || excluded.contains(w.text) || texts(acc).contains(w.text) {
            lemma_collect_from_new(raw.drop_first(), excluded, max, answers, acc);
        } else if acc.len() < max {
            let next = acc.push(w);
            assert forall|i: int| 0 <= i < acc.len() implies (#[trigger] acc[i]).text != w.text by {
                assert(texts(acc)[i] == acc[i].text);
            }
            assert(all_new(next, excluded)) by {
                assert forall|i: int, j: int| 0 <= i < j < next.len() implies (#[trigger] next[i]).text
                    != (#[trigger] next[j]).text by {
                    if j < acc.len() {
                        assert(next[i] == acc[i] && next[j] == acc[j]);
                    } else {
                        assert(next[i] == acc[i] && next[j] == w);
                    }
                }
                assert forall|i: int| 0 <= i < next.len() implies !excluded.contains(
                    (#[trigger] next[i]).text,
                ) by {
                    if i < acc.len() {
                        assert(next[i] == acc[i]);
                    }
                }
            }
            if acc.len() + 1 < max {
                lemma_collect_from_new(raw.drop_first(), excluded, max, answers, next);
            }
        }
    }
}

/// The words kept of a reply are new: each has a text, none is excluded (the
/// first page of the candidate window, in the compose mode), none comes twice,
/// and there are at most `max_items` of them (none when `max_items` is 0).
pub proof fn lemma_kept_words_are_new(
    raw: Seq<(Seq<char>, Seq<char>)>,
    excluded: Seq<Seq<char>>,
    max: nat,
    answers: bool,
)
    ensures
        all_new(collected(raw, excluded, max, answers), excluded),
        collected(raw, excluded, max, answers).len() <= max,
        collected(raw, excluded, max, answers).len() <= raw.len(),
{
    lemma_collect_from_new(raw, excluded, max, answers, Seq::empty());
}

/// A kept sentence is never empty and never restates the text after the
/// cursor: when that text has four characters or more, fewer than three
/// quarters of them form a common subsequence with the sentence, whatever the
/// sentence's own length. With nothing after the cursor it never repeats a
/// first-page candidate; no sentence is kept unless one was asked for.
pub proof fn lemma_kept_sentence_is_new(
    raw: Option<Seq<char>>,
    want: bool,
    before: Seq<char>,
    after: Seq<char>,
    candidates: Seq<Seq<char>>,
)
    ensures
        !want ==> compose_sentence(raw, want, before, after, candidates) is None,
        compose_sentence(raw, want, before, after, candidates) matches Some(s) ==> {
            &&& s.len() > 0
            &&& !(after.len() >= 4 && lcs(s, after) * 4 >= after.len() * 3)
            &&& after.len() == 0 ==> !candidates.contains(s)
        },
{
}

/// `s` is drawn from `t` at the increasing positions `at`.
pub open spec fn drawn_from(s: Seq<char>, t: Seq<char>, at: Seq<int>) -> bool {
    &&& at.len() == s.len()
    &&& forall|k: int| 0 <= k < s.len() ==> 0 <= #[trigger] at[k] < t.len() && t[at[k]] == s[k]
    &&& forall|k: int| 0 < k < s.len() ==> at[k - 1] < #[trigger] at[k]
}

proof fn lemma_drawn_from_bounds_lcs(s: Seq<char>, t: Seq<char>, at: Seq<int>)
    requires
        drawn_from(s, t, at),
    ensures
        lcs(s, t) >= s.len(),
    decreases t.len(),
{
    if s.len() == 0 {
        return;
    }
    let n = s.len() - 1;
    assert(0 <= at[n] < t.len());
    let s1 = s.drop_last();
    let t1 = t.drop_last();
    let at1 = at.drop_last();
    if at[n] == t.len() - 1 {
        assert forall|k: int| 0 <= k < s1.len() implies 0 <= #[trigger] at1[k] < t1.len() && t1[at1[k]]
            == s1[k] by {
            assert(at[k] < at[n]) by {
                lemma_drawn_increasing(s, t, at, k, n);
            }
        }
        assert(drawn_from(s1, t1, at1));
        lemma_drawn_from_bounds_lcs(s1, t1, at1);
        assert(s.last() == t.last());
    } else {
        assert forall|k: int| 0 <= k < s.len() implies 0 <= #[trigger] at[k] < t1.len() && t1[at[k]]
            == s[k] by {
            if k < n {
                lemma_drawn_increasing(s, t, at, k, n);
            }
        }
        assert(drawn_from(s, t1, at));
        lemma_drawn_from_bounds_lcs(s, t1, at);
        if s.last() == t.last() {
            assert forall|k: int| 0 <= k < s1.len() implies 0 <= #[trigger] at1[k] < t1.len()
                && t1[at1[k]] == s1[k] by {
                lemma_drawn_increasing(s, t, at, k, n);
            }
            assert(drawn_from(s1, t1, at1));
            lemma_drawn_from_bounds_lcs(s1, t1, at1);
        }
    }
}

proof fn lemma_drawn_increasing(s: Seq<char>, t: Seq<char>, at: Seq<int>, i: int, j: int)
    requires
        drawn_from(s, t, at),
        0 <= i < j < s.len(),
    ensures
        at[i] < at[j],
    decreases j - i,
{
    assert(at[j - 1] < at[j]);
    if i < j - 1 {
        lemma_drawn_increasing(s, t, at, i, j - 1);
    }
}

/// A sentence drawn, character by character in order, from the text after the
/// cursor (of four characters or more) is kept only when it is shorter than
/// three quarters of that text: repeating what follows is never committed.
pub proof fn lemma_no_sentence_repeats_the_after_text(
    raw: Option<Seq<char>>,
    want: bool,
    before: Seq<char>,
    after: Seq<char>,
    candidates: Seq<Seq<char>>,
    s: Seq<char>,
    at: Seq<int>,
)
    requires
        compose_sentence(raw, want, before, after, candidates) == Some(s),
        drawn_from(s, after, at),
        after.len() >= 4,
    ensures
        s.len() * 4 < after.len() * 3,
{
    lemma_drawn_from_bounds_lcs(s, after, at);
}

/// With no text before (or after) the cursor there is nothing to strip.
pub proof fn lemma_nothing_to_strip(s: Seq<char>)
    ensures
        strip_before_spec(s, Seq::empty()) == s,
        strip_after_spec(s, Seq::empty()) == s,
{
}

} // verus!
