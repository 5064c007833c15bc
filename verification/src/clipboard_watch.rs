//! Decisions of the clipboard watcher: which polled texts are handed to the
//! history, given the fingerprint of the last text seen.
use vstd::prelude::*;

use crate::db::{fingerprint, fingerprint_plaintext};

verus! {

/// How often the watcher polls the clipboard, in milliseconds.
pub const POLL_MS: u64 = 120;

/// The watcher's memory: the fingerprint of the last clipboard text seen.
#[derive(Debug)]
pub struct ClipboardWatch {
    pub last_fp: Option<String>,
}

pub open spec fn fp_of_opt(text: Option<Seq<char>>) -> Option<Seq<char>> {
    match text {
        Some(t) => Some(fingerprint(t)),
        None => None,
    }
}

pub open spec fn opt_seq(o: Option<String>) -> Option<Seq<char>> {
    match o {
        Some(s) => Some(s@),
        None => None,
    }
}

/// One poll: given the last fingerprint seen, whether the watcher itself
/// just wrote the clipboard, and the text read (if any), the next last
/// fingerprint and the text to record (if any).
/// A text the watcher wrote itself is only remembered; a text with an empty
/// fingerprint or the fingerprint last seen is ignored; any other is
/// remembered and recorded.
pub open spec fn poll_step(last: Option<Seq<char>>, own_write: bool, text: Option<Seq<char>>) -> (
    Option<Seq<char>>,
    Option<Seq<char>>,
) {
    if own_write {
        match text {
            Some(t) => (Some(fingerprint(t)), None),
            None => (last, None),
        }
    } else {
        match text {
            None => (last, None),
            Some(t) => {
                let fp = fingerprint(t);
                if fp.len() == 0 || last == Some(fp) {
                    (last, None)
                } else {
                    (Some(fp), Some(t))
                }
            },
        }
    }
}

impl ClipboardWatch {
    /// The watcher at start-up, remembering the text already on the clipboard.
    pub fn new(initial_text: Option<&str>) -> (w: Self)
        ensures
            opt_seq(w.last_fp) == (match initial_text {
                Some(t) => Some(fingerprint(t@)),
                None => None,
            }),
    {
        let last_fp = match initial_text {
            Some(t) => Some(fingerprint_plaintext(t)),
            None => None,
        };
        ClipboardWatch { last_fp }
    }

    /// Handles one poll (see [`poll_step`]) and returns the text to record.
    pub fn on_poll(&mut self, own_write: bool, text: Option<String>) -> (ingest: Option<String>)
        ensures
            (opt_seq(final(self).last_fp), opt_seq(ingest)) == poll_step(
                opt_seq(old(self).last_fp),
                own_write,
                opt_seq(text),
            ),
    {
        match text {
            None => None,
            Some(t) => {
                let fp = fingerprint_plaintext(t.as_str());
                if own_write {
                    self.last_fp = Some(fp);
                    return None;
                }
                if fp.as_str().is_empty() {
                    return None;
                }
                let same = match &self.last_fp {
                    Some(last) => *last == fp,
                    None => false,
                };
                if same {
                    return None;
                }
                self.last_fp = Some(fp);
                Some(t)
            },
        }
    }
}

/// A text the watcher wrote itself is never recorded.
pub proof fn law_own_writes_not_recorded(last: Option<Seq<char>>, text: Option<Seq<char>>)
    ensures
        poll_step(last, true, text).1 is None,
{
}

/// Two polls in a row never record texts with the same fingerprint: after a
/// text is recorded, a next text with the same fingerprint is ignored.
pub proof fn law_no_consecutive_duplicates(
    last: Option<Seq<char>>,
    first: Seq<char>,
    second: Seq<char>,
)
    requires
        poll_step(last, false, Some(first)).1 is Some,
        fingerprint(second) == fingerprint(first),
    ensures
        poll_step(poll_step(last, false, Some(first)).0, false, Some(second)).1 is None,
{
}

/// What a poll hands to the history is the text it read, unchanged; and it
/// hands something on only for a text whose fingerprint is new and
/// non-empty, which then becomes the fingerprint remembered.
pub proof fn law_poll_hands_on_the_text_read(
    last: Option<Seq<char>>,
    own_write: bool,
    text: Option<Seq<char>>,
)
    ensures
        poll_step(last, own_write, text).1 is Some ==> {
            &&& text is Some
            &&& poll_step(last, own_write, text).1 == text
            &&& !own_write
            &&& fingerprint(text->0).len() > 0
            &&& last != Some(fingerprint(text->0))
            &&& poll_step(last, own_write, text).0 == Some(fingerprint(text->0))
        },
{
}

} // verus!
