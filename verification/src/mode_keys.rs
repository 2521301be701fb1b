//! Prefix mode keys: the letters that open the expression, question and
//! continuation modes, and whether `?` also opens the question mode.

use vstd::prelude::*;

use crate::text::{starts_with_char, str_starts_with_char};
use crate::zhuyin::{dachen_symbol, map_key};

verus! {

/// The punctuation entry into the question mode: with [`ModeKeys::question_mark`]
/// on, input starting with `?` is a question under every configuration.
pub const QUESTION_PREFIX: char = '?';

/// The default prefix of the expression mode (`v1+2`, `v123`).
pub const EXPRESSION_PREFIX: char = 'v';

/// The letters that may serve as mode keys: none of them begins a pinyin syllable.
pub open spec fn is_mode_letter(c: char) -> bool {
    c == 'v' || c == 'u' || c == 'i'
}

/// Prefix mode keys (`[shortcut]` section of the configuration).
#[derive(Debug, Clone, Copy, PartialEq, Eq, Structural)]
pub struct ModeKeys {
    /// Expression mode prefix: `v1+2`, `v123`.
    pub expression: char,

    /// Question mode prefix: `usangemu`, `u4e00` (a code point).
    pub question: char,

    /// Continuation mode prefix: after it, Tab asks the cloud to continue the text.
    pub continue_key: char,

    /// Whether input starting with `?` also enters the question mode.
    pub question_mark: bool,
}

/// The default keys: `v` expression, `u` question, `i` continuation, `?` off.
pub open spec fn default_mode_keys() -> ModeKeys {
    ModeKeys { expression: 'v', question: 'u', continue_key: 'i', question_mark: false }
}

impl Default for ModeKeys {
    fn default() -> (r: Self)
        ensures
            r == default_mode_keys(),
    {
        ModeKeys {
            expression: EXPRESSION_PREFIX,
            question: 'u',
            continue_key: 'i',
            question_mark: false,
        }
    }
}

impl ModeKeys {
    /// All three keys are mode letters and pairwise different.
    pub open spec fn valid(self) -> bool {
        &&& is_mode_letter(self.expression)
        &&& is_mode_letter(self.question)
        &&& is_mode_letter(self.continue_key)
        &&& self.expression != self.question
        &&& self.expression != self.continue_key
        &&& self.question != self.continue_key
    }

    /// The first mode letter, in the order `v`, `u`, `i`, used by neither of the
    /// first two keys; the continuation key itself when every letter is taken.
    pub open spec fn free_letter(self) -> char {
        if 'v' != self.expression && 'v' != self.question {
            'v'
        } else if 'u' != self.expression && 'u' != self.question {
            'u'
        } else if 'i' != self.expression && 'i' != self.question {
            'i'
        } else {
            self.continue_key
        }
    }

    /// What [`Self::sanitized`] makes of a configuration: a valid one stays;
    /// when the expression or question key is unusable the whole set falls back
    /// to the defaults (keeping the `?` switch); when only the continuation key
    /// clashes it moves to the free letter.
    pub open spec fn sanitized_spec(self) -> ModeKeys {
        if self.valid() {
            self
        } else if self.expression == self.question || !is_mode_letter(self.expression)
            || !is_mode_letter(self.question) {
            ModeKeys { question_mark: self.question_mark, ..default_mode_keys() }
        } else {
            ModeKeys { continue_key: self.free_letter(), ..self }
        }
    }

    /// Whether `input` enters the mode opened by `key`: it starts with the key,
    /// and under zhuyin the key is not a syllable key.
    pub open spec fn opens(key: char, input: Seq<char>, zhuyin: bool) -> bool {
        starts_with_char(input, key) && (!zhuyin || dachen_symbol(key) is None)
    }

    pub open spec fn question_mark_spec(self, input: Seq<char>) -> bool {
        self.question_mark && starts_with_char(input, QUESTION_PREFIX)
    }

    pub open spec fn question_spec(self, input: Seq<char>, zhuyin: bool) -> bool {
        Self::opens(self.question, input, zhuyin) || self.question_mark_spec(input)
    }

    /// The question body: what follows the prefix, or the whole input outside
    /// the question mode.
    pub open spec fn question_body_spec(self, input: Seq<char>, zhuyin: bool) -> Seq<char> {
        if self.question_mark_spec(input) || self.question_spec(input, zhuyin) {
            input.subrange(1, input.len() as int)
        } else {
            input
        }
    }

    /// Drops the letter keys: under shuangpin `v` / `u` / `i` are syllable keys,
    /// and only `?` (when switched on) still opens the question mode.
    pub fn letterless(self) -> (r: Self)
        ensures
            r == (ModeKeys {
                expression: '\0',
                question: '\0',
                continue_key: '\0',
                question_mark: self.question_mark,
            }),
    {
        ModeKeys {
            expression: '\0',
            question: '\0',
            continue_key: '\0',
            question_mark: self.question_mark,
        }
    }

    fn is_mode_letter(c: char) -> (r: bool)
        ensures
            r == is_mode_letter(c),
    {
        c == 'v' || c == 'u' || c == 'i'
    }

    /// All three keys are mode letters and differ from one another.
    pub fn is_valid(&self) -> (r: bool)
        ensures
            r == self.valid(),
    {
        Self::is_mode_letter(self.expression) && Self::is_mode_letter(self.question)
            && Self::is_mode_letter(self.continue_key) && self.expression != self.question
            && self.expression != self.continue_key && self.question != self.continue_key
    }

    /// An invalid configuration falls back to the defaults (the `?` switch is
    /// kept); when only the continuation key clashes, it moves to the letter
    /// that is still free.
    pub fn sanitized(self) -> (r: Self)
        ensures
            r == self.sanitized_spec(),
    {
        if self.is_valid() {
            return self;
        }
        if self.expression == self.question || !Self::is_mode_letter(self.expression)
            || !Self::is_mode_letter(self.question) {
            return ModeKeys {
                expression: EXPRESSION_PREFIX,
                question: 'u',
                continue_key: 'i',
                question_mark: self.question_mark,
            };
        }
        let free = if 'v' != self.expression && 'v' != self.question {
            'v'
        } else if 'u' != self.expression && 'u' != self.question {
            'u'
        } else if 'i' != self.expression && 'i' != self.question {
            'i'
        } else {
            self.continue_key
        };
        ModeKeys { continue_key: free, ..self }
    }

    fn opens_exec(key: char, input: &str, zhuyin: bool) -> (r: bool)
        ensures
            r == Self::opens(key, input@, zhuyin),
    {
        str_starts_with_char(input, key) && (!zhuyin || map_key(key).is_none())
    }

    /// Whether `input` opens the expression mode.
    pub fn is_expression(&self, input: &str, zhuyin: bool) -> (r: bool)
        ensures
            r == Self::opens(self.expression, input@, zhuyin),
    {
        Self::opens_exec(self.expression, input, zhuyin)
    }

    /// Whether `input` opens the question mode (by its letter, or by `?` when on).
    pub fn is_question(&self, input: &str, zhuyin: bool) -> (r: bool)
        ensures
            r == self.question_spec(input@, zhuyin),
    {
        Self::opens_exec(self.question, input, zhuyin) || self.is_question_mark(input)
    }

    /// Whether `input` starts with the continuation key.
    pub fn is_continue(&self, input: &str, zhuyin: bool) -> (r: bool)
        ensures
            r == Self::opens(self.continue_key, input@, zhuyin),
    {
        Self::opens_exec(self.continue_key, input, zhuyin)
    }

    /// Whether the question mode is entered by `?` (never when the switch is off).
    pub fn is_question_mark(&self, input: &str) -> (r: bool)
        ensures
            r == self.question_mark_spec(input@),
    {
        self.question_mark && str_starts_with_char(input, QUESTION_PREFIX)
    }

    /// In the question mode, the part after the prefix; otherwise `input` itself.
    pub fn question_body<'a>(&self, input: &'a str, zhuyin: bool) -> (r: &'a str)
        ensures
            r@ == self.question_body_spec(input@, zhuyin),
    {
        if self.is_question_mark(input) || self.is_question(input, zhuyin) {
            input.substring_char(1, input.unicode_len())
        } else {
            input
        }
    }
}

/// Sanitizing always yields a valid set of keys and keeps the `?` switch.
pub proof fn lemma_sanitized_is_valid(keys: ModeKeys)
    ensures
        keys.sanitized_spec().valid(),
        keys.sanitized_spec().question_mark == keys.question_mark,
{
}

/// A valid configuration is left as it is, so sanitizing twice is sanitizing once.
pub proof fn lemma_sanitized_idempotent(keys: ModeKeys)
    ensures
        keys.valid() ==> keys.sanitized_spec() == keys,
        keys.sanitized_spec().sanitized_spec() == keys.sanitized_spec(),
{
}

/// Under zhuyin the mode letters are syllable keys, so none of them opens a
/// mode: typed input starting with `v`, `u` or `i` is a syllable, and only `?`
/// (when switched on) still enters the question mode.
pub proof fn lemma_zhuyin_keeps_the_mode_letters(keys: ModeKeys, key: char, input: Seq<char>)
    ensures
        is_mode_letter(key) ==> !ModeKeys::opens(key, input, true),
        keys.valid() ==> !ModeKeys::opens(keys.expression, input, true) && !ModeKeys::opens(
            keys.continue_key,
            input,
            true,
        ) && (keys.question_spec(input, true) == keys.question_mark_spec(input)),
{
    crate::zhuyin::lemma_letters_and_digits_are_syllable_keys(key);
    crate::zhuyin::lemma_letters_and_digits_are_syllable_keys(keys.expression);
    crate::zhuyin::lemma_letters_and_digits_are_syllable_keys(keys.question);
    crate::zhuyin::lemma_letters_and_digits_are_syllable_keys(keys.continue_key);
}

/// The letterless keys open no letter mode: only `?` (when on) still opens the
/// question mode, exactly as before.
pub proof fn lemma_letterless_keeps_only_the_question_mark(keys: ModeKeys, input: Seq<char>)
    requires
        input.len() > 0 ==> input[0] != '\0',
    ensures
        ({
            let l = ModeKeys {
                expression: '\0',
                question: '\0',
                continue_key: '\0',
                question_mark: keys.question_mark,
            };
            &&& !ModeKeys::opens(l.expression, input, false)
            &&& !ModeKeys::opens(l.continue_key, input, false)
            &&& l.question_spec(input, false) == keys.question_mark_spec(input)
        }),
{
}

} // verus!
