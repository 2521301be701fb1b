//! Extra dictionaries: the names of dictionary files, the file that an import
//! writes, and the paging and filtering of the personal-word list.

use vstd::prelude::*;

use crate::text::{
    append_chars, chars_equal, chars_of, ends_with, push_char, same_run, slice_chars,
    starts_with_char, str_starts_with_char, string_of, trim, trimmed,
};

verus! {

/// The suffixes of dictionary files, in the order they are tried.
pub open spec fn known_suffixes() -> Seq<Seq<char>> {
    seq![".dict.yaml"@, ".yaml"@, ".yml"@, ".tsv"@, ".txt"@, ".qj"@]
}

/// `name` without the first of `suffixes` that ends it; `name` when none does.
pub open spec fn strip_first_suffix(name: Seq<char>, suffixes: Seq<Seq<char>>) -> Seq<char>
    decreases suffixes.len(),
{
    if suffixes.len() == 0 {
        name
    } else if ends_with(name, suffixes[0]) {
        name.subrange(0, name.len() - suffixes[0].len())
    } else {
        strip_first_suffix(name, suffixes.drop_first())
    }
}

/// Removes the first matching suffix when `name` ends with it.
fn strip_suffix(name: &Vec<char>, suffix: &str) -> (r: Option<Vec<char>>)
    ensures
        match r {
            Some(v) => ends_with(name@, suffix@) && v@ == name@.subrange(
                0,
                name@.len() - suffix@.len(),
            ),
            None => !ends_with(name@, suffix@),
        },
{
    let s = chars_of(suffix);
    if s.len() > name.len() {
        return None;
    }
    let from = name.len() - s.len();
    let mut t: usize = 0;
    while t < s.len()
        invariant
            t <= s.len(),
            from + s.len() == name.len(),
            s@ == suffix@,
            forall|q: int| 0 <= q < t ==> name@[from + q] == s@[q],
        decreases s.len() - t,
    {
        if name[from + t] != s[t] {
            assert(name@.subrange(from as int, name@.len() as int)[t as int] != s@[t as int]);
            return None;
        }
        t = t + 1;
    }
    assert(name@.subrange(from as int, name@.len() as int) =~= s@);
    let mut out: Vec<char> = Vec::new();
    let mut i: usize = 0;
    while i < from
        invariant
            i <= from,
            from <= name.len(),
            out@ == name@.subrange(0, i as int),
        decreases from - i,
    {
        out.push(name[i]);
        i = i + 1;
    }
    Some(out)
}

/// `law.dict.yaml` becomes `law`, `dict.tsv` becomes `dict`: the first known
/// suffix that ends the name is removed, and nothing else.
pub fn strip_extensions(file_name: &str) -> (r: String)
    ensures
        r@ == strip_first_suffix(file_name@, known_suffixes()),
{
    let name = chars_of(file_name);
    let suffixes: [&str; 6] = [".dict.yaml", ".yaml", ".yml", ".tsv", ".txt", ".qj"];
    let ghost all = known_suffixes();
    proof {
        reveal_strlit(".dict.yaml");
        reveal_strlit(".yaml");
        reveal_strlit(".yml");
        reveal_strlit(".tsv");
        reveal_strlit(".txt");
        reveal_strlit(".qj");
    }
    assert(suffixes@.map_values(|s: &str| s@) =~= all);
    let mut k: usize = 0;
    assert(all.subrange(0, 6) =~= all);
    while k < 6
        invariant
            k <= 6,
            name@ == file_name@,
            suffixes@.map_values(|s: &str| s@) == all,
            all == known_suffixes(),
            all.len() == 6,
            strip_first_suffix(file_name@, all) == strip_first_suffix(
                file_name@,
                all.subrange(k as int, 6),
            ),
        decreases 6 - k,
    {
        let ghost rest = all.subrange(k as int, 6);
        assert(rest.drop_first() =~= all.subrange(k + 1, 6));
        assert(rest[0] == suffixes@[k as int]@);
        let suffix = suffixes[k];
        assert(suffix@ == rest[0]);
        if let Some(stripped) = strip_suffix(&name, suffix) {
            assert(stripped@.subrange(0, stripped@.len() as int) =~= stripped@);
            assert(strip_first_suffix(file_name@, rest) == stripped@);
            return string_of(&stripped, 0, stripped.len());
        }
        k = k + 1;
    }
    assert(all.subrange(6, 6) =~= Seq::<Seq<char>>::empty());
    assert(name@.subrange(0, name@.len() as int) =~= name@);
    string_of(&name, 0, name.len())
}

/// The dictionary name of a file: the same rule for imports and for the
/// dictionary directory, so both agree on what has the same name.
pub fn stem(file_name: &str) -> (r: String)
    ensures
        r@ == strip_first_suffix(file_name@, known_suffixes()),
{
    strip_extensions(file_name)
}

/// The `.qj` file an imported dictionary is written to.
pub fn target_name(stem: &str) -> (r: String)
    ensures
        r@ == stem@ + ".qj"@,
{
    let mut out = String::new();
    append_chars(&mut out, stem);
    append_chars(&mut out, ".qj");
    out
}

/// Hidden files and the AppleDouble metadata of macOS (`._animals.qj`) are no
/// dictionaries.
pub fn is_metadata_file(name: &str) -> (r: bool)
    ensures
        r == starts_with_char(name@, '.'),
{
    str_starts_with_char(name, '.')
}

/// Personal words shown on one page.
pub const WORDS_PER_PAGE: usize = 50;

/// Pages of `total` words: enough for every word, and never fewer than one.
pub open spec fn page_count_spec(total: nat) -> nat {
    if total == 0 {
        1
    } else {
        ((total + WORDS_PER_PAGE - 1) / WORDS_PER_PAGE as int) as nat
    }
}

pub fn page_count(total: usize) -> (r: usize)
    ensures
        r == page_count_spec(total as nat),
{
    let pages = total / WORDS_PER_PAGE + if total % WORDS_PER_PAGE == 0 {
        0
    } else {
        1
    };
    if pages == 0 {
        1
    } else {
        pages
    }
}

/// The pages hold every word and no page is empty: the last page starts
/// before the end (or the list is empty) and the pages reach past it.
pub proof fn lemma_pages_cover_every_word(total: nat)
    ensures
        page_count_spec(total) >= 1,
        page_count_spec(total) * WORDS_PER_PAGE >= total,
        total > 0 ==> (page_count_spec(total) - 1) * WORDS_PER_PAGE < total,
{
    if total > 0 {
        let p = page_count_spec(total) as int;
        assert(p == (total + 49) / 50);
        assert(p * 50 >= total && (p - 1) * 50 < total) by (nonlinear_arith)
            requires
                p == (total + 49) / 50,
                total > 0,
        ;
    }
}

/// What `str::to_lowercase` makes of a string: the full Unicode lower-case
/// mapping, which depends on the string alone. Nothing more is said of it.
pub uninterp spec fn lowercase(s: Seq<char>) -> Seq<char>;

/// std's `str::to_lowercase`. Taken on trust: its result is [`lowercase`] of
/// the argument; what that mapping does to each character is left unsaid.
#[verifier::external_body]
fn to_lowercase(s: &str) -> (r: String)
    ensures
        r@ == lowercase(s@),
{
    s.to_lowercase()
}

/// `needle` occurs in `s` as a run of consecutive characters.
pub open spec fn contains_run(s: Seq<char>, needle: Seq<char>) -> bool {
    exists|i: int| 0 <= i && i + needle.len() <= s.len() && #[trigger] s.subrange(i, i + needle.len()) == needle
}

/// Whether `needle` occurs in `s` (`str::contains` with a string pattern).
fn contains_str(s: &Vec<char>, needle: &Vec<char>) -> (r: bool)
    ensures
        r == contains_run(s@, needle@),
{
    let n = needle.len();
    if n > s.len() {
        return false;
    }
    if n == 0 {
        assert(s@.subrange(0, 0 + needle@.len() as int) =~= needle@);
        return true;
    }
    let last = s.len() - n;
    let mut i: usize = 0;
    while i <= last
        invariant
            n == needle@.len(),
            n > 0,
            last + n == s@.len(),
            last < usize::MAX,
            i <= last + 1,
            forall|j: int| 0 <= j < i ==> #[trigger] s@.subrange(j, j + n) != needle@,
        decreases last + 1 - i,
    {
        if same_run(s, i, needle, 0, n) {
            assert(needle@.subrange(0, n as int) =~= needle@);
            return true;
        }
        assert(needle@.subrange(0, n as int) =~= needle@);
        i = i + 1;
    }
    assert forall|j: int| 0 <= j && j + n <= s@.len() implies #[trigger] s@.subrange(j, j + n) != needle@ by {}
    false
}

/// The (word, pinyin) pairs as character sequences.
pub open spec fn pairs_view(v: Seq<(String, String)>) -> Seq<(Seq<char>, Seq<char>)> {
    v.map_values(|p: (String, String)| (p.0@, p.1@))
}

/// Of the first `n` pairs, in order, those whose lower-cased word or pinyin
/// (`lowered[i]` beside `pairs[i]`) contains `query`.
pub open spec fn matching_prefix(
    pairs: Seq<(Seq<char>, Seq<char>)>,
    lowered: Seq<(Seq<char>, Seq<char>)>,
    query: Seq<char>,
    n: nat,
) -> Seq<(Seq<char>, Seq<char>)>
    decreases n,
{
    if n == 0 {
        Seq::empty()
    } else {
        let rest = matching_prefix(pairs, lowered, query, (n - 1) as nat);
        let (word, pinyin) = lowered[n - 1];
        if contains_run(word, query) || contains_run(pinyin, query) {
            rest.push(pairs[n - 1])
        } else {
            rest
        }
    }
}

/// Each pair with both parts lower-cased.
pub open spec fn lowered_pairs(pairs: Seq<(Seq<char>, Seq<char>)>) -> Seq<(Seq<char>, Seq<char>)> {
    pairs.map_values(|p: (Seq<char>, Seq<char>)| (lowercase(p.0), lowercase(p.1)))
}

/// The pairs whose word or pinyin, lower-cased, contains `query`, in order.
pub open spec fn matching(pairs: Seq<(Seq<char>, Seq<char>)>, query: Seq<char>) -> Seq<(Seq<char>, Seq<char>)> {
    matching_prefix(pairs, lowered_pairs(pairs), query, pairs.len())
}

/// The words whose lower-cased forms (`lowered[i]` for `words[i]`) contain
/// `query`, in order.
pub fn filter_lowered(words: &Vec<(String, String)>, lowered: &Vec<(String, String)>, query: &str) -> (r: Vec<(String, String)>)
    requires
        lowered@.len() == words@.len(),
    ensures
        pairs_view(r@) == matching_prefix(pairs_view(words@), pairs_view(lowered@), query@, words@.len()),
{
    let q = chars_of(query);
    let mut out: Vec<(String, String)> = Vec::new();
    let mut i: usize = 0;
    while i < words.len()
        invariant
            i <= words@.len(),
            lowered@.len() == words@.len(),
            q@ == query@,
            pairs_view(out@) == matching_prefix(pairs_view(words@), pairs_view(lowered@), query@, i as nat),
        decreases words@.len() - i,
    {
        let ghost before = pairs_view(out@);
        let (word, pinyin) = &words[i];
        let (lw, lp) = &lowered[i];
        let lw_chars = chars_of(lw.as_str());
        let lp_chars = chars_of(lp.as_str());
        let keep = contains_str(&lw_chars, &q) || contains_str(&lp_chars, &q);
        assert(pairs_view(lowered@)[i as int] == (lw@, lp@));
        if keep {
            out.push((word.clone(), pinyin.clone()));
            assert(pairs_view(out@) =~= before.push(pairs_view(words@)[i as int]));
        } else {
            assert(pairs_view(out@) =~= before);
        }
        i = i + 1;
    }
    out
}

/// The filter of the personal-word list: the query trimmed and lower-cased;
/// an empty query (or only white space) keeps every word, any other keeps the
/// words whose word or pinyin, lower-cased, contains it.
pub fn filter_words(words: &Vec<(String, String)>, query: Option<&str>) -> (r: Vec<(String, String)>)
    ensures
        ({
            let q = lowercase(trim(match query {
                Some(q) => q@,
                None => Seq::empty(),
            }));
            pairs_view(r@) == if q.len() == 0 {
                pairs_view(words@)
            } else {
                matching(pairs_view(words@), q)
            }
        }),
{
    let raw = match query {
        Some(q) => q,
        None => "",
    };
    proof {
        reveal_strlit("");
    }
    let lowered_query = to_lowercase(trimmed(raw).as_str());
    assert(raw@ == match query {
        Some(q) => q@,
        None => Seq::<char>::empty(),
    });
    if lowered_query.as_str().unicode_len() == 0 {
        let mut all: Vec<(String, String)> = Vec::new();
        let mut i: usize = 0;
        while i < words.len()
            invariant
                i <= words@.len(),
                pairs_view(all@) == pairs_view(words@).subrange(0, i as int),
            decreases words@.len() - i,
        {
            let ghost before = pairs_view(all@);
            let (word, pinyin) = &words[i];
            all.push((word.clone(), pinyin.clone()));
            assert(pairs_view(all@) =~= before.push(pairs_view(words@)[i as int]));
            assert(pairs_view(words@).subrange(0, i + 1) =~= pairs_view(words@).subrange(0, i as int).push(pairs_view(words@)[i as int]));
            i = i + 1;
        }
        assert(pairs_view(words@).subrange(0, words@.len() as int) =~= pairs_view(words@));
        return all;
    }
    let mut lowered: Vec<(String, String)> = Vec::new();
    let mut i: usize = 0;
    while i < words.len()
        invariant
            i <= words@.len(),
            pairs_view(lowered@) == lowered_pairs(pairs_view(words@)).subrange(0, i as int),
        decreases words@.len() - i,
    {
        let ghost before = pairs_view(lowered@);
        let (word, pinyin) = &words[i];
        lowered.push((to_lowercase(word.as_str()), to_lowercase(pinyin.as_str())));
        assert(pairs_view(lowered@) =~= before.push(lowered_pairs(pairs_view(words@))[i as int]));
        assert(lowered_pairs(pairs_view(words@)).subrange(0, i + 1) =~= lowered_pairs(pairs_view(words@)).subrange(0, i as int).push(lowered_pairs(pairs_view(words@))[i as int]));
        i = i + 1;
    }
    assert(pairs_view(lowered@) =~= lowered_pairs(pairs_view(words@)));
    filter_lowered(words, &lowered, lowered_query.as_str())
}

/// The lines of `s` (split at `\n`), each trimmed, empty ones left out.
pub open spec fn trimmed_lines(s: Seq<char>) -> Seq<Seq<char>> {
    let (done, last) = line_scan(s);
    if trim(last).len() > 0 {
        done.push(trim(last))
    } else {
        done
    }
}

/// Reading `s` from the left: the trimmed non-empty lines already closed, and
/// the line in progress.
pub open spec fn line_scan(s: Seq<char>) -> (Seq<Seq<char>>, Seq<char>)
    decreases s.len(),
{
    if s.len() == 0 {
        (Seq::empty(), Seq::empty())
    } else {
        let (done, cur) = line_scan(s.drop_last());
        if s.last() == '\n' {
            if trim(cur).len() > 0 {
                (done.push(trim(cur)), Seq::empty())
            } else {
                (done, Seq::empty())
            }
        } else {
            (done, cur.push(s.last()))
        }
    }
}

/// The words a request to forget personal words names: one per line, trimmed,
/// blank lines skipped.
pub fn forget_request_words(text: &str) -> (r: Vec<String>)
    ensures
        r@.map_values(|w: String| w@) == trimmed_lines(text@),
{
    let chars = chars_of(text);
    let mut done: Vec<String> = Vec::new();
    let mut cur = String::new();
    let mut i: usize = 0;
    while i < chars.len()
        invariant
            i <= chars.len(),
            chars@ == text@,
            done@.map_values(|w: String| w@) == line_scan(chars@.subrange(0, i as int)).0,
            cur@ == line_scan(chars@.subrange(0, i as int)).1,
        decreases chars.len() - i,
    {
        assert(chars@.subrange(0, i + 1).drop_last() =~= chars@.subrange(0, i as int));
        let c = chars[i];
        if c == '\n' {
            let line = trimmed(cur.as_str());
            if line.as_str().unicode_len() > 0 {
                let ghost before = done@.map_values(|w: String| w@);
                done.push(line);
                assert(done@.map_values(|w: String| w@) =~= before.push(trim(cur@)));
            }
            cur = String::new();
        } else {
            push_char(&mut cur, c);
        }
        i = i + 1;
    }
    assert(chars@.subrange(0, chars.len() as int) =~= chars@);
    let line = trimmed(cur.as_str());
    if line.as_str().unicode_len() > 0 {
        let ghost before = done@.map_values(|w: String| w@);
        done.push(line);
        assert(done@.map_values(|w: String| w@) =~= before.push(trim(cur@)));
    }
    done
}

/// Reading `s` from the left as `str::lines` does: the lines already closed
/// (split at `\n`, kept whole) and the line in progress.
pub open spec fn raw_line_scan(s: Seq<char>) -> (Seq<Seq<char>>, Seq<char>)
    decreases s.len(),
{
    if s.len() == 0 {
        (Seq::empty(), Seq::empty())
    } else {
        let (done, cur) = raw_line_scan(s.drop_last());
        if s.last() == '\n' {
            (done.push(cur), Seq::empty())
        } else {
            (done, cur.push(s.last()))
        }
    }
}

/// The lines of `s` as `str::lines` gives them, each trimmed: a last piece
/// after the final `\n` counts only when it is not empty.
pub open spec fn trimmed_raw_lines(s: Seq<char>) -> Seq<Seq<char>> {
    let (done, cur) = raw_line_scan(s);
    let lines = if cur.len() > 0 {
        done.push(cur)
    } else {
        done
    };
    lines.map_values(|l: Seq<char>| trim(l))
}

/// Asking the server to forget `word`: the request file `old` gains a line
/// `word` (and `None` comes back when some line of it, trimmed, already is
/// `word`: the request is pending).
pub fn request_forget(old: &str, word: &str) -> (r: Option<String>)
    ensures
        r is None <==> trimmed_raw_lines(old@).contains(word@),
        r matches Some(text) ==> text@ == old@ + word@ + seq!['\n'],
{
    let chars = chars_of(old);
    let wanted = word.to_owned();
    let mut cur = String::new();
    let mut found = false;
    let mut i: usize = 0;
    while i < chars.len()
        invariant
            i <= chars.len(),
            chars@ == old@,
            wanted@ == word@,
            cur@ == raw_line_scan(chars@.subrange(0, i as int)).1,
            found == raw_line_scan(chars@.subrange(0, i as int)).0.map_values(
                |l: Seq<char>| trim(l),
            ).contains(word@),
        decreases chars.len() - i,
    {
        let ghost prefix = chars@.subrange(0, i + 1);
        assert(prefix.drop_last() =~= chars@.subrange(0, i as int));
        let ghost before = raw_line_scan(chars@.subrange(0, i as int)).0.map_values(
            |l: Seq<char>| trim(l),
        );
        let c = chars[i];
        if c == '\n' {
            let line = trimmed(cur.as_str());
            let same = line == wanted;
            let ghost after = raw_line_scan(prefix).0.map_values(|l: Seq<char>| trim(l));
            assert(after =~= before.push(trim(cur@)));
            assert(after.contains(word@) == (before.contains(word@) || trim(cur@) == word@)) by {
                if after.contains(word@) && !(trim(cur@) == word@) {
                    let k = choose|k: int| 0 <= k < after.len() && after[k] == word@;
                    assert(k < before.len() && before[k] == after[k]);
                }
                if trim(cur@) == word@ {
                    assert(after[before.len() as int] == word@);
                }
                if before.contains(word@) {
                    let k = choose|k: int| 0 <= k < before.len() && before[k] == word@;
                    assert(after[k] == before[k]);
                }
            }
            found = found || same;
            cur = String::new();
        } else {
            push_char(&mut cur, c);
        }
        i = i + 1;
    }
    assert(chars@.subrange(0, chars.len() as int) =~= chars@);
    if cur.as_str().unicode_len() > 0 {
        let line = trimmed(cur.as_str());
        let same = line == wanted;
        proof {
            let done = raw_line_scan(old@).0;
            let before = done.map_values(|l: Seq<char>| trim(l));
            let all = done.push(cur@).map_values(|l: Seq<char>| trim(l));
            assert(all =~= before.push(trim(cur@)));
            assert(all.contains(word@) == (before.contains(word@) || trim(cur@) == word@)) by {
                if all.contains(word@) && !(trim(cur@) == word@) {
                    let k = choose|k: int| 0 <= k < all.len() && all[k] == word@;
                    assert(k < before.len() && before[k] == all[k]);
                }
                if trim(cur@) == word@ {
                    assert(all[before.len() as int] == word@);
                }
                if before.contains(word@) {
                    let k = choose|k: int| 0 <= k < before.len() && before[k] == word@;
                    assert(all[k] == before[k]);
                }
            }
        }
        found = found || same;
    }
    if found {
        return None;
    }
    let mut text = old.to_owned();
    append_chars(&mut text, word);
    push_char(&mut text, '\n');
    Some(text)
}

proof fn lemma_line_scan_append(s: Seq<char>, t: Seq<char>)
    requires
        !t.contains('\n'),
    ensures
        line_scan(s + t) == (line_scan(s).0, line_scan(s).1 + t),
    decreases t.len(),
{
    if t.len() == 0 {
        assert(s + t =~= s);
        assert(line_scan(s).1 + t =~= line_scan(s).1);
    } else {
        let u = t.drop_last();
        assert(!u.contains('\n')) by {
            if u.contains('\n') {
                let k = choose|k: int| 0 <= k < u.len() && u[k] == '\n';
                assert(t[k] == '\n');
            }
        }
        lemma_line_scan_append(s, u);
        assert((s + t).drop_last() =~= s + u);
        assert((s + t).last() == t.last());
        assert(t.last() != '\n') by {
            if t.last() == '\n' {
                assert(t[t.len() - 1] == '\n');
            }
        }
        assert((line_scan(s).1 + u).push(t.last()) =~= line_scan(s).1 + t);
    }
}

/// A word asked to be forgotten is what the server reads back: when the
/// request file is empty or ends its last line, and the word is a single
/// line with no white space at its ends, the file after the request names it
/// among its words.
pub proof fn lemma_requested_word_is_read_back(old: Seq<char>, word: Seq<char>)
    requires
        old.len() == 0 || old.last() == '\n',
        word.len() > 0,
        trim(word) == word,
        !word.contains('\n'),
    ensures
        trimmed_lines(old + word + seq!['\n']).contains(word),
{
    let (done, cur) = line_scan(old);
    assert(cur.len() == 0) by {
        if old.len() > 0 {
            assert(old.last() == '\n');
        }
    }
    lemma_line_scan_append(old, word);
    assert(cur + word =~= word);
    let x = old + word;
    let y = old + word + seq!['\n'];
    assert(y.drop_last() =~= x);
    assert(y.last() == '\n');
    assert(line_scan(y) == (done.push(word), Seq::<char>::empty()));
    assert(trim(Seq::<char>::empty()).len() == 0);
    assert(trimmed_lines(y) == done.push(word));
    assert(done.push(word)[done.len() as int] == word);
}

// ---------------------------------------------------------------------------
// Choosing the files of a dictionary directory

/// The extensions a dictionary directory loads, best first: of two files with
/// the same name, the `.qj` wins over the `.tsv`.
pub open spec fn loadable_extensions() -> Seq<Seq<char>> {
    seq!["qj"@, "tsv"@, "yaml"@, "yml"@, "txt"@]
}

/// The position of the last `.` in `name` (-1 when there is none).
pub open spec fn last_dot(name: Seq<char>) -> int
    decreases name.len(),
{
    if name.len() == 0 {
        -1
    } else if name.last() == '.' {
        name.len() - 1
    } else {
        last_dot(name.drop_last())
    }
}

/// `Path::extension` of a file name: what follows the last dot, unless the
/// only dot starts the name.
pub open spec fn extension_of(name: Seq<char>) -> Option<Seq<char>> {
    let d = last_dot(name);
    if d <= 0 {
        None
    } else {
        Some(name.subrange(d + 1, name.len() as int))
    }
}

/// The first index of `x` in `s`, when it occurs.
pub open spec fn index_in(s: Seq<Seq<char>>, x: Seq<char>) -> Option<nat>
    decreases s.len(),
{
    if s.len() == 0 {
        None
    } else if s[0] == x {
        Some(0)
    } else {
        match index_in(s.drop_first(), x) {
            Some(i) => Some(i + 1),
            None => None,
        }
    }
}

/// The rank of a loadable file name (its extension's place in the list).
pub open spec fn rank_of(name: Seq<char>) -> Option<nat> {
    match extension_of(name) {
        Some(e) => index_in(loadable_extensions(), e),
        None => None,
    }
}

/// A file the directory loads: not hidden, a loadable extension, a name left
/// after its suffix goes.
pub open spec fn is_candidate(name: Seq<char>) -> bool {
    &&& !starts_with_char(name, '.')
    &&& rank_of(name) is Some
    &&& strip_first_suffix(name, known_suffixes()).len() > 0
}

/// Character sequences in code-point order (the order of UTF-8 strings).
pub open spec fn seq_lt(a: Seq<char>, b: Seq<char>) -> bool
    decreases a.len(),
{
    if a.len() == 0 {
        b.len() > 0
    } else if b.len() == 0 {
        false
    } else if a[0] != b[0] {
        a[0] < b[0]
    } else {
        seq_lt(a.drop_first(), b.drop_first())
    }
}

/// The sort key of a file: its dictionary name, then its rank, then the file name.
pub struct FileKey {
    pub stem: Seq<char>,
    pub rank: nat,
    pub name: Seq<char>,
}

pub open spec fn key_of(name: Seq<char>) -> FileKey {
    FileKey {
        stem: strip_first_suffix(name, known_suffixes()),
        rank: match rank_of(name) {
            Some(r) => r,
            None => 0,
        },
        name,
    }
}

pub open spec fn key_lt(a: FileKey, b: FileKey) -> bool {
    ||| seq_lt(a.stem, b.stem)
    ||| a.stem == b.stem && a.rank < b.rank
    ||| a.stem == b.stem && a.rank == b.rank && seq_lt(a.name, b.name)
}

pub open spec fn key_le(a: FileKey, b: FileKey) -> bool {
    key_lt(a, b) || a == b
}

proof fn lemma_seq_lt_irreflexive(a: Seq<char>)
    ensures
        !seq_lt(a, a),
    decreases a.len(),
{
    if a.len() > 0 {
        lemma_seq_lt_irreflexive(a.drop_first());
    }
}

proof fn lemma_seq_lt_transitive(a: Seq<char>, b: Seq<char>, c: Seq<char>)
    requires
        seq_lt(a, b),
        seq_lt(b, c),
    ensures
        seq_lt(a, c),
    decreases a.len(),
{
    if a.len() > 0 && b.len() > 0 && c.len() > 0 {
        if a[0] == b[0] && b[0] == c[0] {
            lemma_seq_lt_transitive(a.drop_first(), b.drop_first(), c.drop_first());
        }
    }
}

proof fn lemma_seq_lt_total(a: Seq<char>, b: Seq<char>)
    ensures
        seq_lt(a, b) || seq_lt(b, a) || a == b,
    decreases a.len(),
{
    if a.len() > 0 && b.len() > 0 {
        if a[0] == b[0] {
            lemma_seq_lt_total(a.drop_first(), b.drop_first());
            if a.drop_first() == b.drop_first() {
                assert(a =~= seq![a[0]] + a.drop_first());
                assert(b =~= seq![b[0]] + b.drop_first());
            }
        } else {
            assert(a[0] < b[0] || b[0] < a[0]);
        }
    } else if a.len() == 0 && b.len() == 0 {
        assert(a =~= b);
    }
}

proof fn lemma_seq_lt_asymmetric(a: Seq<char>, b: Seq<char>)
    requires
        seq_lt(a, b),
    ensures
        !seq_lt(b, a),
{
    if seq_lt(b, a) {
        lemma_seq_lt_transitive(a, b, a);
        lemma_seq_lt_irreflexive(a);
    }
}

proof fn lemma_key_order(a: FileKey, b: FileKey, c: FileKey)
    ensures
        key_lt(a, b) || key_lt(b, a) || a == b,
        key_lt(a, b) ==> !key_lt(b, a),
        key_lt(a, b) && key_lt(b, c) ==> key_lt(a, c),
        !key_lt(a, a),
{
    lemma_seq_lt_total(a.stem, b.stem);
    lemma_seq_lt_total(a.name, b.name);
    lemma_seq_lt_irreflexive(a.stem);
    lemma_seq_lt_irreflexive(a.name);
    if seq_lt(a.stem, b.stem) {
        lemma_seq_lt_asymmetric(a.stem, b.stem);
    }
    if seq_lt(b.stem, a.stem) {
        lemma_seq_lt_asymmetric(b.stem, a.stem);
    }
    if seq_lt(a.name, b.name) {
        lemma_seq_lt_asymmetric(a.name, b.name);
    }
    if seq_lt(b.name, a.name) {
        lemma_seq_lt_asymmetric(b.name, a.name);
    }
    if key_lt(a, b) && key_lt(b, c) {
        if seq_lt(a.stem, b.stem) && seq_lt(b.stem, c.stem) {
            lemma_seq_lt_transitive(a.stem, b.stem, c.stem);
        }
        if a.stem == b.stem && b.stem == c.stem && a.rank == b.rank && b.rank == c.rank && seq_lt(a.name, b.name) && seq_lt(b.name, c.name) {
            lemma_seq_lt_transitive(a.name, b.name, c.name);
        }
    }
    if a.stem == b.stem && a.rank == b.rank && a.name == b.name {
        assert(a == b);
    }
}

/// Whether `a` comes before `b` in code-point order.
fn chars_lt(a: &Vec<char>, b: &Vec<char>) -> (r: bool)
    ensures
        r == seq_lt(a@, b@),
{
    let mut i: usize = 0;
    assert(a@.subrange(0, a@.len() as int) =~= a@);
    assert(b@.subrange(0, b@.len() as int) =~= b@);
    while i < a.len() && i < b.len() && a[i] == b[i]
        invariant
            i <= a@.len(),
            i <= b@.len(),
            seq_lt(a@, b@) == seq_lt(a@.subrange(i as int, a@.len() as int), b@.subrange(i as int, b@.len() as int)),
        decreases a@.len() - i,
    {
        assert(a@.subrange(i as int, a@.len() as int).drop_first() =~= a@.subrange(i + 1, a@.len() as int));
        assert(b@.subrange(i as int, b@.len() as int).drop_first() =~= b@.subrange(i + 1, b@.len() as int));
        i = i + 1;
    }
    if i == a.len() {
        i < b.len()
    } else if i == b.len() {
        false
    } else {
        let x = a[i];
        let y = b[i];
        let ghost sa = a@.subrange(i as int, a@.len() as int);
        let ghost sb = b@.subrange(i as int, b@.len() as int);
        assert(sa[0] == x && sb[0] == y);
        x < y
    }
}

/// The rank of a file name (see [`rank_of`]).
fn rank_of_name(name: &Vec<char>) -> (r: Option<usize>)
    ensures
        match r {
            Some(k) => rank_of(name@) == Some(k as nat),
            None => rank_of(name@) is None,
        },
{
    let mut j: usize = name.len();
    assert(name@.subrange(0, name@.len() as int) =~= name@);
    while j > 0 && name[j - 1] != '.'
        invariant
            j <= name@.len(),
            last_dot(name@) == last_dot(name@.subrange(0, j as int)),
        decreases j,
    {
        assert(name@.subrange(0, j as int).drop_last() =~= name@.subrange(0, j - 1));
        j = j - 1;
    }
    if j <= 1 {
        proof {
            if j == 1 {
                assert(name@.subrange(0, 1).last() == name@[0]);
            }
        }
        return None;
    }
    assert(name@.subrange(0, j as int).last() == name@[j - 1]);
    assert(last_dot(name@) == j - 1);
    let ext = slice_chars(name, j, name.len());
    let extensions: [&str; 5] = ["qj", "tsv", "yaml", "yml", "txt"];
    proof {
        reveal_strlit("qj");
        reveal_strlit("tsv");
        reveal_strlit("yaml");
        reveal_strlit("yml");
        reveal_strlit("txt");
    }
    let ghost all = loadable_extensions();
    assert(extensions@.map_values(|e: &str| e@) =~= all);
    assert(all.subrange(0, 5) =~= all);
    let mut k: usize = 0;
    while k < 5
        invariant
            k <= 5,
            all == loadable_extensions(),
            extensions@.map_values(|e: &str| e@) == all,
            ext@ == name@.subrange(j as int, name@.len() as int),
            extension_of(name@) == Some(ext@),
            index_in(all, ext@) == match index_in(all.subrange(k as int, 5), ext@) {
                Some(i) => Some((i + k) as nat),
                None => None,
            },
        decreases 5 - k,
    {
        let ghost rest = all.subrange(k as int, 5);
        assert(rest.drop_first() =~= all.subrange(k + 1, 5));
        assert(rest[0] == extensions@[k as int]@);
        let candidate = chars_of(extensions[k]);
        if chars_equal(&candidate, &ext) {
            return Some(k);
        }
        k = k + 1;
    }
    assert(all.subrange(5, 5) =~= Seq::<Seq<char>>::empty());
    None
}

/// One loadable file of the directory: its dictionary name, its rank, its
/// file name and its place in the listing.
struct Cand {
    stem: Vec<char>,
    rank: usize,
    name: Vec<char>,
    index: usize,
}

spec fn cand_key(c: Cand) -> FileKey {
    FileKey { stem: c.stem@, rank: c.rank as nat, name: c.name@ }
}

/// `c` stands for entry `c.index` of `names`, a loadable file.
spec fn cand_of(names: Seq<String>, c: Cand) -> bool {
    &&& c.index < names.len()
    &&& c.name@ == names[c.index as int]@
    &&& is_candidate(c.name@)
    &&& cand_key(c) == key_of(c.name@)
}

/// The listing entry `name`, when it is a loadable file.
fn candidate_of(name: &String, index: usize) -> (r: Option<Cand>)
    ensures
        match r {
            Some(c) => c.index == index && c.name@ == name@ && is_candidate(name@) && cand_key(c)
                == key_of(name@),
            None => !is_candidate(name@),
        },
{
    if str_starts_with_char(name.as_str(), '.') {
        return None;
    }
    let chars = chars_of(name.as_str());
    let rank = match rank_of_name(&chars) {
        Some(r) => r,
        None => {
            return None;
        },
    };
    let stem = chars_of(strip_extensions(name.as_str()).as_str());
    if stem.len() == 0 {
        return None;
    }
    Some(Cand { stem, rank, name: chars, index })
}

fn cand_lt(a: &Cand, b: &Cand) -> (r: bool)
    ensures
        r == key_lt(cand_key(*a), cand_key(*b)),
{
    if chars_lt(&a.stem, &b.stem) {
        return true;
    }
    if !chars_equal(&a.stem, &b.stem) {
        return false;
    }
    a.rank < b.rank || (a.rank == b.rank && chars_lt(&a.name, &b.name))
}

spec fn sorted_keys(s: Seq<Cand>) -> bool {
    forall|i: int, j: int| 0 <= i < j < s.len() ==> key_le(cand_key(#[trigger] s[i]), cand_key(#[trigger] s[j]))
}

/// Inserts `c` after every element whose key is not greater.
fn insert_sorted(v: &mut Vec<Cand>, c: Cand)
    requires
        sorted_keys(old(v)@),
    ensures
        sorted_keys(final(v)@),
        exists|p: int| 0 <= p <= old(v)@.len() && final(v)@ == old(v)@.insert(p, c),
{
    let mut p: usize = 0;
    while p < v.len() && !cand_lt(&c, &v[p])
        invariant
            p <= v@.len(),
            v@ == old(v)@,
            sorted_keys(v@),
            forall|j: int| 0 <= j < p ==> !key_lt(cand_key(c), cand_key(#[trigger] v@[j])),
        decreases v@.len() - p,
    {
        p = p + 1;
    }
    let ghost s = v@;
    let ghost ck = cand_key(c);
    proof {
        assert forall|j: int| 0 <= j < p implies key_le(cand_key(#[trigger] s[j]), ck) by {
            lemma_key_order(cand_key(s[j]), ck, ck);
        }
        if p < s.len() {
            assert forall|j: int| p <= j < s.len() implies key_lt(ck, cand_key(#[trigger] s[j])) by {
                if j > p {
                    assert(key_le(cand_key(s[p as int]), cand_key(s[j])));
                    lemma_key_order(ck, cand_key(s[p as int]), cand_key(s[j]));
                }
            }
        }
    }
    v.insert(p, c);
    proof {
        let t = v@;
        assert(t == s.insert(p as int, c));
        assert forall|i: int, j: int| 0 <= i < j < t.len() implies key_le(cand_key(#[trigger] t[i]), cand_key(#[trigger] t[j])) by {
            if j < p {
                assert(t[i] == s[i] && t[j] == s[j]);
            } else if j == p {
                assert(t[j] == c && t[i] == s[i]);
            } else if i < p {
                assert(t[i] == s[i] && t[j] == s[j - 1]);
                lemma_key_order(cand_key(s[i]), ck, cand_key(s[j - 1]));
                lemma_key_order(cand_key(s[i]), cand_key(s[i]), cand_key(s[j - 1]));
            } else if i == p {
                assert(t[i] == c && t[j] == s[j - 1]);
            } else {
                assert(t[i] == s[i - 1] && t[j] == s[j - 1]);
            }
        }
    }
}

/// What [`dictionary_files`] returns for the listing `names`: each entry is a
/// loadable file with its dictionary name; the names strictly increase; and
/// every loadable file is represented by the entry of its name, which has the
/// smallest (rank, file name) among the files of that name.
pub open spec fn chosen_files(names: Seq<String>, chosen: Seq<(Seq<char>, usize)>) -> bool {
    &&& forall|i: int|
        0 <= i < chosen.len() ==> {
            let (stem, index) = #[trigger] chosen[i];
            &&& index < names.len()
            &&& is_candidate(names[index as int]@)
            &&& stem == key_of(names[index as int]@).stem
        }
    &&& forall|i: int, j: int| 0 <= i < j < chosen.len() ==> seq_lt(#[trigger] chosen[i].0, #[trigger] chosen[j].0)
    &&& forall|k: int|
        0 <= k < names.len() && is_candidate(#[trigger] names[k]@) ==> exists|i: int|
            0 <= i < chosen.len() && chosen[i].0 == key_of(names[k]@).stem && key_le(
                key_of(names[chosen[i].1 as int]@),
                key_of(names[k]@),
            )
}

pub open spec fn chosen_view(out: Seq<(String, usize)>) -> Seq<(Seq<char>, usize)> {
    out.map_values(|e: (String, usize)| (e.0@, e.1))
}

/// The dictionary files of a directory listing: hidden files and unknown
/// extensions are left out; of the files with the same dictionary name
/// (`law.dict.yaml`, `law.qj`) only the best extension is kept; the result is
/// ordered by name. Each entry gives the name and the file's place in `names`.
#[verifier::rlimit(40)]
pub fn dictionary_files(names: &Vec<String>) -> (r: Vec<(String, usize)>)
    ensures
        chosen_files(names@, chosen_view(r@)),
{
    let mut sorted: Vec<Cand> = Vec::new();
    let mut i: usize = 0;
    while i < names.len()
        invariant
            i <= names@.len(),
            sorted_keys(sorted@),
            forall|p: int| 0 <= p < sorted@.len() ==> cand_of(names@, #[trigger] sorted@[p]),
            forall|k: int|
                0 <= k < i && is_candidate(#[trigger] names@[k]@) ==> exists|p: int|
                    0 <= p < sorted@.len() && sorted@[p].index == k,
        decreases names@.len() - i,
    {
        match candidate_of(&names[i], i) {
            Some(c) => {
                let ghost before = sorted@;
                let ghost cc = c;
                insert_sorted(&mut sorted, c);
                proof {
                    let p = choose|p: int| 0 <= p <= before.len() && sorted@ == before.insert(p, cc);
                    assert forall|q: int| 0 <= q < sorted@.len() implies cand_of(names@, #[trigger] sorted@[q]) by {
                        if q < p {
                            assert(sorted@[q] == before[q]);
                        } else if q > p {
                            assert(sorted@[q] == before[q - 1]);
                        }
                    }
                    assert forall|k: int|
                        0 <= k < i + 1 && is_candidate(#[trigger] names@[k]@) implies exists|q: int|
                            0 <= q < sorted@.len() && sorted@[q].index == k by {
                        if k == i {
                            assert(sorted@[p].index == k);
                        } else {
                            let q0 = choose|q: int| #![trigger before[q]] 0 <= q < before.len() && before[q].index == k;
                            if q0 < p {
                                assert(sorted@[q0] == before[q0]);
                            } else {
                                assert(sorted@[q0 + 1] == before[q0]);
                            }
                        }
                    }
                }
            },
            None => {},
        }
        i = i + 1;
    }
    let mut out: Vec<(String, usize)> = Vec::new();
    let mut q: usize = 0;
    while q < sorted.len()
        invariant
            q <= sorted@.len(),
            sorted_keys(sorted@),
            forall|p: int| 0 <= p < sorted@.len() ==> cand_of(names@, #[trigger] sorted@[p]),
            forall|k: int|
                0 <= k < names@.len() && is_candidate(#[trigger] names@[k]@) ==> exists|p: int|
                    0 <= p < sorted@.len() && sorted@[p].index == k,
            forall|j: int|
                0 <= j < out@.len() ==> {
                    let (stem, index) = #[trigger] chosen_view(out@)[j];
                    &&& index < names@.len()
                    &&& is_candidate(names@[index as int]@)
                    &&& stem == key_of(names@[index as int]@).stem
                },
            forall|a: int, b: int|
                0 <= a < b < out@.len() ==> seq_lt(#[trigger] chosen_view(out@)[a].0, #[trigger] chosen_view(out@)[b].0),
            q == 0 ==> out@.len() == 0,
            q > 0 ==> out@.len() > 0 && chosen_view(out@)[out@.len() - 1].0 == sorted@[q - 1].stem@,
            forall|p: int|
                #![trigger sorted@[p]]
                0 <= p < q ==> exists|j: int|
                    #![trigger chosen_view(out@)[j]]
                    0 <= j < out@.len() && chosen_view(out@)[j].0 == sorted@[p].stem@ && key_le(
                        key_of(names@[chosen_view(out@)[j].1 as int]@),
                        cand_key(sorted@[p]),
                    ),
        decreases sorted@.len() - q,
    {
        let c = &sorted[q];
        let same = out.len() > 0 && {
            let last = chars_of(out[out.len() - 1].0.as_str());
            chars_equal(&last, &c.stem)
        };
        if same {
            proof {
                let pq = q as int;
                let j0 = choose|j: int|
                    #![trigger chosen_view(out@)[j]]
                    0 <= j < out@.len() && chosen_view(out@)[j].0 == sorted@[pq - 1].stem@ && key_le(
                        key_of(names@[chosen_view(out@)[j].1 as int]@),
                        cand_key(sorted@[pq - 1]),
                    );
                assert(key_le(cand_key(sorted@[pq - 1]), cand_key(sorted@[pq])));
                lemma_key_order(
                    key_of(names@[chosen_view(out@)[j0].1 as int]@),
                    cand_key(sorted@[pq - 1]),
                    cand_key(sorted@[pq]),
                );
                assert(chosen_view(out@)[j0].0 == sorted@[pq].stem@);
            }
        } else {
            let ghost old_out = chosen_view(out@);
            let stem = string_of(&c.stem, 0, c.stem.len());
            assert(c.stem@.subrange(0, c.stem@.len() as int) =~= c.stem@);
            out.push((stem, c.index));
            proof {
                let pq = q as int;
                let np = chosen_view(out@);
                assert(np =~= old_out.push((sorted@[pq].stem@, sorted@[pq].index)));
                assert(cand_of(names@, sorted@[pq]));
                if q > 0 {
                    let prev = sorted@[pq - 1];
                    assert(key_le(cand_key(prev), cand_key(sorted@[pq])));
                    assert(old_out[old_out.len() - 1].0 == prev.stem@);
                    assert(old_out[old_out.len() - 1].0 != sorted@[pq].stem@);
                    assert(seq_lt(prev.stem@, sorted@[pq].stem@));
                    assert forall|a: int, b: int| 0 <= a < b < np.len() implies seq_lt(#[trigger] np[a].0, #[trigger] np[b].0) by {
                        if b == np.len() - 1 && a < b {
                            if a < old_out.len() - 1 {
                                assert(seq_lt(old_out[a].0, old_out[old_out.len() - 1].0));
                                lemma_seq_lt_transitive(old_out[a].0, prev.stem@, sorted@[pq].stem@);
                            }
                        } else {
                            assert(np[a] == old_out[a] && np[b] == old_out[b]);
                        }
                    }
                }
                lemma_key_order(cand_key(sorted@[pq]), cand_key(sorted@[pq]), cand_key(sorted@[pq]));
                assert forall|p: int|
                    #![trigger sorted@[p]]
                    0 <= p < pq + 1 implies exists|j: int|
                        #![trigger np[j]]
                        0 <= j < np.len() && np[j].0 == sorted@[p].stem@ && key_le(
                            key_of(names@[np[j].1 as int]@),
                            cand_key(sorted@[p]),
                        ) by {
                    if p == pq {
                        assert(np[np.len() - 1] == (sorted@[pq].stem@, sorted@[pq].index));
                    } else {
                        let j0 = choose|j: int|
                            #![trigger old_out[j]]
                            0 <= j < old_out.len() && old_out[j].0 == sorted@[p].stem@ && key_le(
                                key_of(names@[old_out[j].1 as int]@),
                                cand_key(sorted@[p]),
                            );
                        assert(np[j0] == old_out[j0]);
                    }
                }
            }
        }
        q = q + 1;
    }
    proof {
        let r = chosen_view(out@);
        assert forall|k: int|
            0 <= k < names@.len() && is_candidate(#[trigger] names@[k]@) implies exists|j: int|
                0 <= j < r.len() && r[j].0 == key_of(names@[k]@).stem && key_le(
                    key_of(names@[r[j].1 as int]@),
                    key_of(names@[k]@),
                ) by {
            let p = choose|p: int| #![trigger sorted@[p]] 0 <= p < sorted@.len() && sorted@[p].index == k;
            assert(cand_of(names@, sorted@[p]));
        }
    }
    out
}

// ---------------------------------------------------------------------------
// Switches kept as lists of names, and paging

/// `list` without any occurrence of `name`, in order.
pub open spec fn without_name(list: Seq<Seq<char>>, name: Seq<char>) -> Seq<Seq<char>>
    decreases list.len(),
{
    if list.len() == 0 {
        list
    } else if list.last() == name {
        without_name(list.drop_last(), name)
    } else {
        without_name(list.drop_last(), name).push(list.last())
    }
}

/// The list with `name` in it (appended when missing) or with no `name` at all.
pub open spec fn membership(list: Seq<Seq<char>>, name: Seq<char>, member: bool) -> Seq<Seq<char>> {
    if member {
        if list.contains(name) {
            list
        } else {
            list.push(name)
        }
    } else {
        without_name(list, name)
    }
}

/// A list of names that switches something on or off (the enabled domains,
/// the disabled user dictionaries): `member` puts `name` in (once, at the end
/// when missing), otherwise every occurrence leaves.
pub fn set_membership(list: &Vec<String>, name: &String, member: bool) -> (r: Vec<String>)
    ensures
        r@.map_values(|s: String| s@) == membership(list@.map_values(|s: String| s@), name@, member),
{
    let ghost all = list@.map_values(|s: String| s@);
    let mut out: Vec<String> = Vec::new();
    let mut found = false;
    let mut i: usize = 0;
    while i < list.len()
        invariant
            i <= list@.len(),
            all == list@.map_values(|s: String| s@),
            found == all.subrange(0, i as int).contains(name@),
            member ==> out@.map_values(|s: String| s@) == all.subrange(0, i as int),
            !member ==> out@.map_values(|s: String| s@) == without_name(all.subrange(0, i as int), name@),
        decreases list@.len() - i,
    {
        let ghost before = out@.map_values(|s: String| s@);
        let ghost prefix = all.subrange(0, i + 1);
        assert(prefix.drop_last() =~= all.subrange(0, i as int));
        assert(prefix.last() == list@[i as int]@);
        let same = list[i] == *name;
        if same {
            found = true;
            assert(prefix.contains(name@)) by {
                assert(prefix[i as int] == name@);
            }
        } else {
            assert(prefix.contains(name@) == all.subrange(0, i as int).contains(name@)) by {
                if prefix.contains(name@) {
                    let k = choose|k: int| 0 <= k < prefix.len() && prefix[k] == name@;
                    if k < i {
                        assert(all.subrange(0, i as int)[k] == name@);
                    }
                }
                if all.subrange(0, i as int).contains(name@) {
                    let k = choose|k: int| 0 <= k < i && all.subrange(0, i as int)[k] == name@;
                    assert(prefix[k] == name@);
                }
            }
        }
        if member || !same {
            out.push(list[i].clone());
            assert(out@.map_values(|s: String| s@) =~= before.push(list@[i as int]@));
        }
        i = i + 1;
    }
    assert(all.subrange(0, list@.len() as int) =~= all);
    if member && !found {
        let ghost before = out@.map_values(|s: String| s@);
        out.push(name.clone());
        assert(out@.map_values(|s: String| s@) =~= before.push(name@));
    }
    out
}

/// Removing a name leaves none of it, and adding a name makes it present.
pub proof fn lemma_membership_holds(list: Seq<Seq<char>>, name: Seq<char>)
    ensures
        !without_name(list, name).contains(name),
        membership(list, name, true).contains(name),
    decreases list.len(),
{
    if list.len() > 0 {
        lemma_membership_holds(list.drop_last(), name);
        let rest = without_name(list.drop_last(), name);
        if list.last() != name {
            assert forall|k: int| 0 <= k < rest.push(list.last()).len() implies rest.push(list.last())[k] != name by {
                if k < rest.len() {
                    assert(rest.push(list.last())[k] == rest[k]);
                }
            }
        }
    }
    if !list.contains(name) {
        assert(list.push(name)[list.len() as int] == name);
    }
}

/// The names of a list as character sequences.
pub open spec fn names_view(v: Seq<String>) -> Seq<Seq<char>> {
    v.map_values(|s: String| s@)
}

/// Which extra dictionaries are switched on. The bundled domain dictionaries
/// are off unless `domains` lists them; the user's own are on unless
/// `disabled` lists them.
#[derive(Debug, Clone, PartialEq, Eq)]
pub struct DictionariesConfig {
    pub domains: Vec<String>,
    pub disabled: Vec<String>,
}

impl Default for DictionariesConfig {
    fn default() -> (r: Self)
        ensures
            r.domains@.len() == 0,
            r.disabled@.len() == 0,
    {
        DictionariesConfig { domains: Vec::new(), disabled: Vec::new() }
    }
}

fn lists_name(list: &Vec<String>, name: &str) -> (r: bool)
    ensures
        r == names_view(list@).contains(name@),
{
    let wanted = name.to_owned();
    let mut i: usize = 0;
    while i < list.len()
        invariant
            i <= list@.len(),
            wanted@ == name@,
            forall|k: int| 0 <= k < i ==> names_view(list@)[k] != name@,
        decreases list@.len() - i,
    {
        if list[i] == wanted {
            assert(names_view(list@)[i as int] == name@);
            return true;
        }
        i = i + 1;
    }
    false
}

impl DictionariesConfig {
    /// Whether the bundled domain dictionary `stem` is switched on.
    pub fn is_domain_enabled(&self, stem: &str) -> (r: bool)
        ensures
            r == names_view(self.domains@).contains(stem@),
    {
        lists_name(&self.domains, stem)
    }

    /// Whether the user's dictionary `stem` is switched on.
    pub fn is_enabled(&self, stem: &str) -> (r: bool)
        ensures
            r == !names_view(self.disabled@).contains(stem@),
    {
        !lists_name(&self.disabled, stem)
    }
}

/// Of a directory listing of (stem, path), in order, the entries whose stem
/// is in `names` exactly when `listed_means_on`.
pub open spec fn switched_on(
    listing: Seq<(Seq<char>, Seq<char>)>,
    names: Seq<Seq<char>>,
    listed_means_on: bool,
) -> Seq<(Seq<char>, Seq<char>)>
    decreases listing.len(),
{
    if listing.len() == 0 {
        Seq::empty()
    } else {
        let rest = switched_on(listing.drop_last(), names, listed_means_on);
        if names.contains(listing.last().0) == listed_means_on {
            rest.push(listing.last())
        } else {
            rest
        }
    }
}

fn keep_switched_on(
    listing: &Vec<(String, String)>,
    names: &Vec<String>,
    listed_means_on: bool,
    out: &mut Vec<(String, String)>,
)
    ensures
        pairs_view(final(out)@) == pairs_view(old(out)@) + switched_on(
            pairs_view(listing@),
            names_view(names@),
            listed_means_on,
        ),
{
    let ghost start = pairs_view(out@);
    let ghost all = pairs_view(listing@);
    let mut i: usize = 0;
    assert(all.subrange(0, 0) =~= Seq::<(Seq<char>, Seq<char>)>::empty());
    while i < listing.len()
        invariant
            i <= listing@.len(),
            all == pairs_view(listing@),
            pairs_view(out@) == start + switched_on(
                all.subrange(0, i as int),
                names_view(names@),
                listed_means_on,
            ),
        decreases listing@.len() - i,
    {
        let ghost before = pairs_view(out@);
        let ghost prefix = all.subrange(0, i + 1);
        assert(prefix.drop_last() =~= all.subrange(0, i as int));
        let (stem, path) = &listing[i];
        assert(prefix.last() == (stem@, path@));
        let listed = lists_name(names, stem.as_str());
        if listed == listed_means_on {
            out.push((stem.clone(), path.clone()));
            assert(pairs_view(out@) =~= before.push((stem@, path@)));
        } else {
            assert(pairs_view(out@) =~= before);
        }
        i = i + 1;
    }
    assert(all.subrange(0, listing@.len() as int) =~= all);
}

/// The extra dictionaries to load, in order, from the listings of the bundled
/// domain directory and of the user's directory (each as (stem, path), a
/// missing directory listing nothing): first the switched-on domain
/// dictionaries, then the user's that are not switched off.
pub fn load(
    bundled: &Vec<(String, String)>,
    user: &Vec<(String, String)>,
    config: &DictionariesConfig,
) -> (r: Vec<(String, String)>)
    ensures
        pairs_view(r@) == switched_on(pairs_view(bundled@), names_view(config.domains@), true)
            + switched_on(pairs_view(user@), names_view(config.disabled@), false),
{
    let mut loaded: Vec<(String, String)> = Vec::new();
    assert(pairs_view(loaded@) =~= Seq::<(Seq<char>, Seq<char>)>::empty());
    keep_switched_on(bundled, &config.domains, true, &mut loaded);
    keep_switched_on(user, &config.disabled, false, &mut loaded);
    proof {
        let a = switched_on(pairs_view(bundled@), names_view(config.domains@), true);
        assert(Seq::<(Seq<char>, Seq<char>)>::empty() + a =~= a);
    }
    loaded
}

/// Whether a file name has an extension that a dictionary directory loads
/// (`qj`, `tsv`, `yaml`, `yml`, `txt`).
pub fn supported(file_name: &str) -> (r: bool)
    ensures
        r == rank_of(file_name@) is Some,
{
    let name = chars_of(file_name);
    rank_of_name(&name).is_some()
}

/// The character of a decimal digit.
pub open spec fn digit_char(d: nat) -> char {
    (48 + d) as char
}

/// `n` written in decimal.
pub open spec fn decimal(n: nat) -> Seq<char>
    decreases n,
{
    if n < 10 {
        seq![digit_char(n)]
    } else {
        decimal(n / 10).push(digit_char(n % 10))
    }
}

fn push_decimal(s: &mut String, n: usize)
    ensures
        final(s)@ == old(s)@ + decimal(n as nat),
    decreases n,
{
    let ghost start = s@;
    if n >= 10 {
        push_decimal(s, n / 10);
    }
    let d = n % 10;
    push_char(s, ((48 + d) as u8) as char);
    proof {
        if n < 10 {
            assert(s@ =~= start + decimal(n as nat));
        } else {
            assert(s@ =~= start + decimal((n / 10) as nat).push(digit_char((n % 10) as nat)));
        }
    }
}

/// What reading a dictionary file gave: its name, how many entries it has and
/// its licence (empty when it states none).
#[derive(Debug, Clone, PartialEq, Eq)]
pub struct ReadSummary {
    pub name: String,
    pub entries: usize,
    pub license: String,
}

/// The text of a dictionary's row and whether the row is disabled. A file
/// that was read shows `name · N 条`, then ` · 随包` for a bundled one or
/// ` · licence` when it states one; a file that could not be read shows its
/// stem and why: an unknown extension points to the import button, anything
/// else is a broken file.
pub open spec fn row_label_spec(
    file_name: Seq<char>,
    stem: Seq<char>,
    read: Option<(Seq<char>, nat, Seq<char>)>,
    builtin: bool,
) -> (Seq<char>, bool) {
    match read {
        Some((name, entries, license)) => {
            let base = name + " · "@ + decimal(entries) + " 条"@;
            if builtin {
                (base + " · 随包"@, false)
            } else if license.len() > 0 {
                (base + " · "@ + license, false)
            } else {
                (base, false)
            }
        },
        None => {
            if rank_of(file_name) is None {
                (stem + "（后缀不认识，点下面「导入词库…」转换）"@, true)
            } else {
                (stem + "（读不了：文件损坏或格式不对）"@, true)
            }
        },
    }
}

/// The row of one dictionary on the settings page, from what reading its file
/// `file_name` gave (`None` when it could not be read); see [`row_label_spec`].
pub fn row_label(file_name: &str, stem: &str, read: Option<&ReadSummary>, builtin: bool) -> (r: (
    String,
    bool,
))
    ensures
        (r.0@, r.1) == row_label_spec(
            file_name@,
            stem@,
            match read {
                Some(x) => Some((x.name@, x.entries as nat, x.license@)),
                None => None,
            },
            builtin,
        ),
{
    match read {
        Some(summary) => {
            let mut text = summary.name.clone();
            append_chars(&mut text, " · ");
            push_decimal(&mut text, summary.entries);
            append_chars(&mut text, " 条");
            if builtin {
                append_chars(&mut text, " · 随包");
            } else if summary.license.as_str().unicode_len() > 0 {
                append_chars(&mut text, " · ");
                append_chars(&mut text, summary.license.as_str());
            }
            (text, false)
        },
        None => {
            let mut text = stem.to_owned();
            if !supported(file_name) {
                append_chars(&mut text, "（后缀不认识，点下面「导入词库…」转换）");
            } else {
                append_chars(&mut text, "（读不了：文件损坏或格式不对）");
            }
            (text, true)
        },
    }
}

/// The page after moving `delta` pages from `page`, kept inside `0..pages`.
pub open spec fn turned_page(page: int, delta: int, pages: int) -> int {
    let target = page + delta;
    if target < 0 {
        0
    } else if target > pages - 1 {
        pages - 1
    } else {
        target
    }
}

/// The page of the personal-word list that is drawn and its rows: the
/// remembered page clamped to the last page (deleting words or narrowing the
/// filter can leave it past the end), and the rows from `page * 50` up to the
/// end of that page or of the list.
pub open spec fn page_rows_spec(total: nat, page: nat) -> (nat, nat, nat) {
    let last = (page_count_spec(total) - 1) as nat;
    let p = if page < last {
        page
    } else {
        last
    };
    let start = (p * WORDS_PER_PAGE) as nat;
    let end = if start + WORDS_PER_PAGE < total {
        (start + WORDS_PER_PAGE) as nat
    } else {
        total
    };
    (p, start, end)
}

/// The drawn page of `total` words and its row range (see [`page_rows_spec`]).
pub fn page_rows(total: usize, page: usize) -> (r: (usize, usize, usize))
    ensures
        (r.0 as nat, r.1 as nat, r.2 as nat) == page_rows_spec(total as nat, page as nat),
        r.1 <= r.2 <= total,
{
    let pages = page_count(total);
    proof {
        lemma_pages_cover_every_word(total as nat);
    }
    let last = pages - 1;
    let p = if page < last {
        page
    } else {
        last
    };
    assert(p * WORDS_PER_PAGE <= total) by (nonlinear_arith)
        requires
            p <= last,
            last * WORDS_PER_PAGE <= total || total == 0 && last == 0,
            WORDS_PER_PAGE == 50,
    ;
    let start = p * WORDS_PER_PAGE;
    let end = if total - start > WORDS_PER_PAGE {
        start + WORDS_PER_PAGE
    } else {
        total
    };
    (p, start, end)
}

/// Turns the personal-word list by `delta` pages, never past either end.
pub fn turn_page(page: usize, delta: isize, pages: usize) -> (r: usize)
    requires
        1 <= pages <= isize::MAX,
        page <= isize::MAX,
    ensures
        r == turned_page(page as int, delta as int, pages as int),
{
    let target: i128 = page as i128 + delta as i128;
    let last: i128 = pages as i128 - 1;
    if target < 0 {
        0
    } else if target > last {
        (pages - 1) as usize
    } else {
        target as usize
    }
}

} // verus!
