//! Candidates and the rules that place them: the English words that lead the
//! list, where the whole-sentence candidate goes, and how typed input splits
//! into upper-case and lower-case runs.

use vstd::prelude::*;

use crate::text::{begins_with, chars_of, push_char};

verus! {

/// Where a candidate comes from.
#[derive(Debug, Clone, Copy, PartialEq, Eq, Structural)]
pub enum CandidateKind {
    /// A Chinese word or phrase from the dictionaries.
    Chinese,
    /// An English word.
    English,
    /// The conversion of the whole input.
    Sentence,
}

/// One candidate.
#[derive(Debug, Clone, PartialEq, Eq)]
pub struct Candidate {
    pub text: String,
    pub kind: CandidateKind,
    /// The syllables it was read from.
    pub syllables: Vec<String>,
    /// The reading shown beside it.
    pub reading: Option<String>,
}

/// How many candidates at the front are English words.
pub open spec fn leading_english_spec(kinds: Seq<CandidateKind>) -> nat
    decreases kinds.len(),
{
    if kinds.len() == 0 || kinds[0] != CandidateKind::English {
        0
    } else {
        1 + leading_english_spec(kinds.drop_first())
    }
}

pub open spec fn kinds_of(items: Seq<Candidate>) -> Seq<CandidateKind> {
    items.map_values(|c: Candidate| c.kind)
}

/// The number of English candidates before the first other one: the sentence
/// goes after them.
pub fn leading_english(items: &Vec<Candidate>) -> (r: usize)
    ensures
        r == leading_english_spec(kinds_of(items@)),
{
    let ghost kinds = kinds_of(items@);
    let mut k: usize = 0;
    assert(kinds.subrange(0, kinds.len() as int) =~= kinds);
    while k < items.len() && items[k].kind == CandidateKind::English
        invariant
            k <= items.len(),
            kinds == kinds_of(items@),
            leading_english_spec(kinds) == k + leading_english_spec(
                kinds.subrange(k as int, kinds.len() as int),
            ),
        decreases items.len() - k,
    {
        assert(kinds.subrange(k as int, kinds.len() as int).drop_first() =~= kinds.subrange(
            k + 1,
            kinds.len() as int,
        ));
        k = k + 1;
    }
    k
}

/// An English-word candidate.
pub fn english_candidate(text: &str, syllables: Vec<String>) -> (r: Candidate)
    ensures
        r.text@ == text@,
        r.kind == CandidateKind::English,
        r.syllables@ == syllables@,
        r.reading is None,
{
    Candidate { text: text.to_owned(), kind: CandidateKind::English, syllables, reading: None }
}

/// A Chinese word of at least two syllables and two characters.
pub open spec fn is_word(c: Candidate) -> bool {
    c.kind == CandidateKind::Chinese && c.syllables@.len() >= 2 && c.text@.len() >= 2
}

/// The first index at or after `from` holding a word (`items.len()` when none).
pub open spec fn first_word_from(items: Seq<Candidate>, from: int) -> int
    decreases items.len() - from,
{
    if from >= items.len() {
        items.len() as int
    } else if is_word(items[from]) {
        from
    } else {
        first_word_from(items, from + 1)
    }
}

/// Where the sentence goes: after the leading English words; but when the
/// first word neither spans the sentence's syllables nor starts its text (the
/// sentence reads differently), right after that word.
pub open spec fn sentence_position_spec(plain: Candidate, items: Seq<Candidate>) -> int {
    let english = leading_english_spec(kinds_of(items)) as int;
    if plain.kind != CandidateKind::Sentence {
        english
    } else {
        let index = first_word_from(items, 0);
        if index >= items.len() {
            english
        } else {
            let first = items[index];
            if first.syllables@.len() == plain.syllables@.len() || begins_with(plain.text@, first.text@) {
                english
            } else {
                index + 1
            }
        }
    }
}

fn text_starts_with(text: &String, prefix: &String) -> (r: bool)
    ensures
        r == begins_with(text@, prefix@),
{
    let t = chars_of(text.as_str());
    let p = chars_of(prefix.as_str());
    if p.len() > t.len() {
        return false;
    }
    let mut i: usize = 0;
    while i < p.len()
        invariant
            i <= p.len() <= t.len(),
            t@ == text@,
            p@ == prefix@,
            forall|j: int| 0 <= j < i ==> t@[j] == p@[j],
        decreases p.len() - i,
    {
        if t[i] != p[i] {
            assert(t@.subrange(0, p@.len() as int)[i as int] != p@[i as int]);
            return false;
        }
        i = i + 1;
    }
    assert(t@.subrange(0, p@.len() as int) =~= p@);
    true
}

/// Where the whole-sentence candidate is inserted (see [`sentence_position_spec`]).
pub fn sentence_insert_position(plain: &Candidate, items: &Vec<Candidate>) -> (r: usize)
    ensures
        r as int == sentence_position_spec(*plain, items@),
        r <= items@.len(),
{
    let english = leading_english(items);
    proof {
        lemma_leading_english_bounded(kinds_of(items@));
    }
    if plain.kind != CandidateKind::Sentence {
        return english;
    }
    let mut index: usize = 0;
    while index < items.len() && !(items[index].kind == CandidateKind::Chinese
        && items[index].syllables.len() >= 2 && items[index].text.as_str().unicode_len() >= 2)
        invariant
            index <= items@.len(),
            first_word_from(items@, 0) == first_word_from(items@, index as int),
        decreases items@.len() - index,
    {
        index = index + 1;
    }
    if index >= items.len() {
        return english;
    }
    let first = &items[index];
    if first.syllables.len() == plain.syllables.len() || text_starts_with(&plain.text, &first.text) {
        english
    } else {
        index + 1
    }
}

proof fn lemma_leading_english_bounded(kinds: Seq<CandidateKind>)
    ensures
        leading_english_spec(kinds) <= kinds.len(),
    decreases kinds.len(),
{
    if kinds.len() > 0 && kinds[0] == CandidateKind::English {
        lemma_leading_english_bounded(kinds.drop_first());
    }
}

/// A run of typed characters, all upper case or all not.
#[derive(Debug, Clone, PartialEq, Eq)]
pub struct TypedSeg {
    pub text: String,
    pub is_upper: bool,
}

pub open spec fn is_ascii_upper(c: char) -> bool {
    'A' <= c <= 'Z'
}

/// Reading `s` from the left: the runs already closed, the open run and
/// whether it is upper case.
pub open spec fn run_scan(s: Seq<char>) -> (Seq<(Seq<char>, bool)>, Seq<char>, bool)
    decreases s.len(),
{
    if s.len() == 0 {
        (Seq::empty(), Seq::empty(), false)
    } else {
        let (runs, buf, upper) = run_scan(s.drop_last());
        let c = s.last();
        let up = is_ascii_upper(c);
        if buf.len() == 0 {
            (runs, seq![c], up)
        } else if up == upper {
            (runs, buf.push(c), upper)
        } else {
            (runs.push((buf, upper)), seq![c], up)
        }
    }
}

/// The maximal runs of upper-case and other characters of `s`, in order.
pub open spec fn runs_spec(s: Seq<char>) -> Seq<(Seq<char>, bool)> {
    let (runs, buf, upper) = run_scan(s);
    if buf.len() > 0 {
        runs.push((buf, upper))
    } else {
        runs
    }
}

pub open spec fn segs_view(v: Seq<TypedSeg>) -> Seq<(Seq<char>, bool)> {
    v.map_values(|g: TypedSeg| (g.text@, g.is_upper))
}

/// Splits typed input into runs of ASCII upper case and of everything else.
pub fn split_upper_lower(typed: &str) -> (r: Vec<TypedSeg>)
    ensures
        segs_view(r@) == runs_spec(typed@),
{
    let chars = chars_of(typed);
    let mut segs: Vec<TypedSeg> = Vec::new();
    let mut buf = String::new();
    let mut is_upper = false;
    let mut i: usize = 0;
    while i < chars.len()
        invariant
            i <= chars.len(),
            chars@ == typed@,
            segs_view(segs@) == run_scan(chars@.subrange(0, i as int)).0,
            buf@ == run_scan(chars@.subrange(0, i as int)).1,
            is_upper == run_scan(chars@.subrange(0, i as int)).2,
        decreases chars.len() - i,
    {
        assert(chars@.subrange(0, i + 1).drop_last() =~= chars@.subrange(0, i as int));
        let c = chars[i];
        let up = 'A' <= c && c <= 'Z';
        if buf.as_str().unicode_len() == 0 {
            is_upper = up;
            push_char(&mut buf, c);
            assert(buf@ =~= seq![c]);
        } else if up == is_upper {
            push_char(&mut buf, c);
        } else {
            let done = TypedSeg { text: buf, is_upper };
            let ghost before = segs_view(segs@);
            segs.push(done);
            assert(segs_view(segs@) =~= before.push((done.text@, done.is_upper)));
            buf = String::new();
            is_upper = up;
            push_char(&mut buf, c);
            assert(buf@ =~= seq![c]);
        }
        i = i + 1;
    }
    assert(chars@.subrange(0, chars.len() as int) =~= chars@);
    if buf.as_str().unicode_len() > 0 {
        let done = TypedSeg { text: buf, is_upper };
        let ghost before = segs_view(segs@);
        segs.push(done);
        assert(segs_view(segs@) =~= before.push((done.text@, done.is_upper)));
    }
    segs
}

pub open spec fn joined(runs: Seq<(Seq<char>, bool)>) -> Seq<char>
    decreases runs.len(),
{
    if runs.len() == 0 {
        Seq::empty()
    } else {
        joined(runs.drop_last()) + runs.last().0
    }
}

/// Every run is non-empty and of one case, next runs differ in case.
pub open spec fn runs_well_formed(runs: Seq<(Seq<char>, bool)>) -> bool {
    &&& forall|i: int| 0 <= i < runs.len() ==> (#[trigger] runs[i]).0.len() > 0
    &&& forall|i: int, j: int|
        0 <= i < runs.len() && 0 <= j < runs[i].0.len() ==> is_ascii_upper(#[trigger] runs[i].0[j])
            == runs[i].1
    &&& forall|i: int| 0 < i < runs.len() ==> (#[trigger] runs[i]).1 != runs[i - 1].1
}

proof fn lemma_run_scan(s: Seq<char>)
    ensures
        ({
            let (runs, buf, upper) = run_scan(s);
            &&& joined(runs) + buf == s
            &&& runs_well_formed(runs)
            &&& forall|j: int| 0 <= j < buf.len() ==> is_ascii_upper(#[trigger] buf[j]) == upper
            &&& buf.len() == 0 ==> s.len() == 0
            &&& buf.len() > 0 && runs.len() > 0 ==> runs.last().1 != upper
        }),
    decreases s.len(),
{
    if s.len() > 0 {
        lemma_run_scan(s.drop_last());
        let (runs, buf, upper) = run_scan(s.drop_last());
        let c = s.last();
        let up = is_ascii_upper(c);
        assert(s =~= s.drop_last().push(c));
        if buf.len() == 0 {
            assert(joined(runs) + seq![c] =~= s);
        } else if up == upper {
            assert(joined(runs) + buf.push(c) =~= (joined(runs) + buf).push(c));
        } else {
            let nr = runs.push((buf, upper));
            assert(nr.drop_last() =~= runs);
            assert(joined(nr) == joined(runs) + buf);
            assert(joined(nr) + seq![c] =~= (joined(runs) + buf).push(c));
            assert forall|i: int, j: int|
                0 <= i < nr.len() && 0 <= j < nr[i].0.len() implies is_ascii_upper(
                #[trigger] nr[i].0[j],
            ) == nr[i].1 by {
                if i < runs.len() {
                    assert(nr[i] == runs[i]);
                }
            }
            assert forall|i: int| 0 < i < nr.len() implies (#[trigger] nr[i]).1 != nr[i - 1].1 by {
                if i < runs.len() {
                    assert(nr[i] == runs[i] && nr[i - 1] == runs[i - 1]);
                }
            }
            assert forall|i: int| 0 <= i < nr.len() implies (#[trigger] nr[i]).0.len() > 0 by {
                if i < runs.len() {
                    assert(nr[i] == runs[i]);
                }
            }
        }
    }
}

/// The runs put back together are the input, each run is non-empty and of one
/// case, and neighbouring runs differ in case.
pub proof fn lemma_runs_cover_the_input(s: Seq<char>)
    ensures
        joined(runs_spec(s)) == s,
        runs_well_formed(runs_spec(s)),
{
    lemma_run_scan(s);
    let (runs, buf, upper) = run_scan(s);
    if buf.len() > 0 {
        let nr = runs.push((buf, upper));
        assert(nr.drop_last() =~= runs);
        assert forall|i: int, j: int|
            0 <= i < nr.len() && 0 <= j < nr[i].0.len() implies is_ascii_upper(#[trigger] nr[i].0[j])
            == nr[i].1 by {
            if i < runs.len() {
                assert(nr[i] == runs[i]);
            }
        }
        assert forall|i: int| 0 < i < nr.len() implies (#[trigger] nr[i]).1 != nr[i - 1].1 by {
            if i < runs.len() {
                assert(nr[i] == runs[i] && nr[i - 1] == runs[i - 1]);
            }
        }
        assert forall|i: int| 0 <= i < nr.len() implies (#[trigger] nr[i]).0.len() > 0 by {
            if i < runs.len() {
                assert(nr[i] == runs[i]);
            }
        }
    } else {
        assert(joined(runs) + buf =~= joined(runs));
    }
}

} // verus!
