//! One frame of the candidate window: the preedit line, the candidate rows, the
//! highlight, the footer and the text on the right of the preedit line. Only
//! what is shown; no ranking or lookup.

use vstd::prelude::*;

verus! {

/// What the mouse rests on: drawn a shade lighter than the keyboard highlight.
#[derive(Debug, Clone, Copy, PartialEq, Eq, Structural)]
pub enum Hover {
    /// Candidate row `row` of the frame (the same numbering as `highlighted`).
    Row(usize),
    /// The sentence completion on the right of the preedit line.
    Trailing,
}

/// The preedit line as drawn.
#[derive(Debug, Clone, PartialEq, Eq)]
pub struct Preedit {
    pub text: String,
}

/// One candidate row as drawn.
#[derive(Debug, Clone, PartialEq, Eq)]
pub struct Row {
    pub text: String,
}

#[derive(Debug, Clone, PartialEq, Eq)]
pub struct Frame {
    /// The preedit line; `None` when it is shown inline only.
    pub preedit: Option<Preedit>,
    /// The candidate rows.
    pub rows: Vec<Row>,
    /// The highlighted row.
    pub highlighted: Option<usize>,
    /// What the mouse rests on; the highlight wins where they meet.
    pub hovered: Option<Hover>,
    /// A sentence was asked for and has not arrived: its place shows dots.
    pub sentence_pending: bool,
    /// The page number in the corner.
    pub footer: Option<String>,
    /// The sentence completion on the right of the preedit line.
    pub sentence: Option<String>,
    /// A passing status message (what was deleted), shown instead of the sentence.
    pub status: Option<String>,
}

/// What is drawn on the right of the preedit line.
#[derive(Debug, Clone, Copy)]
pub struct Trailing<'a> {
    pub text: &'a str,
    /// Whether a cloud is drawn before it.
    pub cloud: bool,
    /// Whether it is a real sentence that can be clicked.
    pub pointable: bool,
}

/// The dots shown while a sentence is on its way.
pub const PENDING_DOTS: &'static str = "…";

impl Default for Frame {
    fn default() -> (r: Self)
        ensures
            r.preedit is None,
            r.rows@.len() == 0,
            r.highlighted is None,
            r.hovered is None,
            !r.sentence_pending,
            r.footer is None,
            r.sentence is None,
            r.status is None,
    {
        Frame {
            preedit: None,
            rows: Vec::new(),
            highlighted: None,
            hovered: None,
            sentence_pending: false,
            footer: None,
            sentence: None,
            status: None,
        }
    }
}

impl Frame {
    /// The right-hand text as (text, cloud, pointable): the status first, then
    /// the sentence, then the dots of a pending sentence.
    pub open spec fn trailing_spec(&self) -> Option<(Seq<char>, bool, bool)> {
        match self.status {
            Some(status) => Some((status@, false, false)),
            None => match self.sentence {
                Some(sentence) => Some((sentence@, true, true)),
                None => if self.sentence_pending {
                    Some((PENDING_DOTS@, true, false))
                } else {
                    None
                },
            },
        }
    }

    /// Nothing to draw at all.
    pub open spec fn is_empty_spec(&self) -> bool {
        self.rows@.len() == 0 && self.preedit is None && self.trailing_spec() is None
    }

    /// Whether a top line is drawn (the preedit or the right-hand text).
    pub open spec fn has_top_line_spec(&self) -> bool {
        self.preedit is Some || self.trailing_spec() is Some
    }

    /// What to draw on the right of the preedit line.
    pub fn trailing(&self) -> (r: Option<Trailing<'_>>)
        ensures
            match r {
                Some(t) => self.trailing_spec() == Some((t.text@, t.cloud, t.pointable)),
                None => self.trailing_spec() is None,
            },
    {
        if let Some(status) = &self.status {
            return Some(Trailing { text: status.as_str(), cloud: false, pointable: false });
        }
        if let Some(sentence) = &self.sentence {
            return Some(Trailing { text: sentence.as_str(), cloud: true, pointable: true });
        }
        if self.sentence_pending {
            Some(Trailing { text: PENDING_DOTS, cloud: true, pointable: false })
        } else {
            None
        }
    }

    pub fn is_empty(&self) -> (r: bool)
        ensures
            r == self.is_empty_spec(),
    {
        self.rows.len() == 0 && self.preedit.is_none() && self.trailing().is_none()
    }

    /// Whether a top line is drawn.
    pub fn has_top_line(&self) -> (r: bool)
        ensures
            r == self.has_top_line_spec(),
    {
        self.preedit.is_some() || self.trailing().is_some()
    }
}

/// A pending sentence is shown with a cloud but can never be clicked; only a
/// sentence that arrived can.
pub proof fn lemma_only_a_real_sentence_is_pointable(frame: Frame)
    ensures
        frame.trailing_spec() matches Some(t) && t.2 ==> frame.status is None && frame.sentence
            is Some,
        frame.status is None && frame.sentence is None && frame.sentence_pending ==> frame.trailing_spec()
            == Some((PENDING_DOTS@, true, false)),
{
}

} // verus!
