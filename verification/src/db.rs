//! Clipboard history: fingerprints, capture decisions, labels, search
//! patterns and retention, over the values that the SQLite store reads
//! and writes.
use vstd::prelude::*;

use crate::text::{
    chars_of, collapse_whitespace, str_equals, collapse_ws, is_ws, lemma_collapse_trim_idempotent,
    lemma_strip_both_shape, lemma_trim_idempotent, skip_leading, skip_trailing, string_of, strip_both,
    strip_bounds, strip_leading, strip_trailing, trim, trim_str, utf8_len, utf8_len_exceeds, words,
    CharClass,
};
use crate::text::{
    lemma_join_ends, lemma_strip_both_noop, lemma_strip_leading_shape, lemma_strip_trailing_shape,
    lemma_words_are_words, lemma_words_nonempty,
};

use std::time::Duration;
use std::time::SystemTime;
use std::time::SystemTimeError;

verus! {

/// Hard cap in bytes: larger clipboard texts are not recorded.
pub const CLIPBOARD_MAX_CHARS: usize = 512_000;

/// Labels keep at most this many characters.
pub const MAX_LABEL_CHARS: usize = 80;

/// Retention policy for the history store.
#[derive(Clone, Copy, Debug, PartialEq, Eq, Structural)]
pub struct HistoryLimits {
    pub max_rows: i64,
    /// `None` = ignore age; only cap by row count.
    pub max_age_ms: Option<i64>,
}

/// One clip as the history store holds it.
#[derive(Clone, Debug)]
pub struct ClipRow {
    pub id: i64,
    pub plaintext: String,
    pub created_ms: i64,
    pub pinned: bool,
    pub label: Option<String>,
}

#[verifier::external_type_specification]
#[verifier::external_body]
pub struct ExSystemTime(SystemTime);

#[verifier::external_type_specification]
#[verifier::external_body]
pub struct ExSystemTimeError(SystemTimeError);

/// `SystemTime::now`: the current reading of the system clock. Nothing is
/// stated of it: it depends on the time.
#[verifier::external_body]
fn system_time_now() -> SystemTime {
    SystemTime::now()
}

/// `SystemTime::duration_since` with `UNIX_EPOCH` as the earlier time: how
/// long after 1970-01-01 `t` lies, or an error when `t` lies before it.
/// Nothing is stated of the value, which `SystemTime` does not expose.
#[verifier::external_body]
fn since_unix_epoch(t: &SystemTime) -> Result<Duration, SystemTimeError> {
    t.duration_since(std::time::UNIX_EPOCH)
}

/// `Duration::as_millis`: the whole milliseconds of `d`. Nothing is stated
/// of the value, which `Duration` does not expose.
#[verifier::external_body]
fn duration_as_millis(d: &Duration) -> u128 {
    d.as_millis()
}

/// What `millis_to_ms` returns: the milliseconds as an `i64` (wrapping as
/// `as` does), or 0 when the clock reading failed.
pub open spec fn ms_of(m: Option<u128>) -> i64 {
    match m {
        Some(x) => x as i64,
        None => 0,
    }
}

/// A clock reading in milliseconds as the timestamp that the store keeps.
pub fn millis_to_ms(m: Option<u128>) -> (t: i64)
    ensures
        t == ms_of(m),
{
    match m {
        Some(x) => {
            #[verifier::truncate]
            (x as i64)
        },
        None => 0,
    }
}

/// Milliseconds since the Unix epoch (0 when the clock is before it).
pub fn now_ms() -> i64 {
    let t = system_time_now();
    let m = match since_unix_epoch(&t) {
        Ok(d) => Some(duration_as_millis(&d)),
        Err(_) => None,
    };
    millis_to_ms(m)
}

/// The normalized fingerprint of a text: its words (maximal runs of
/// non-white-space) joined by single spaces.
pub open spec fn fingerprint(s: Seq<char>) -> Seq<char> {
    collapse_ws(trim(s))
}

/// The fingerprint by which consecutive duplicate captures are recognized.
pub fn fingerprint_plaintext(raw: &str) -> (r: String)
    ensures
        r@ == fingerprint(raw@),
{
    let t = trim_str(raw);
    collapse_whitespace(t.as_str())
}

/// A label as it is stored: trimmed, at most [`MAX_LABEL_CHARS`]
/// characters, and absent when nothing is left.
pub open spec fn label_to_store(raw: Seq<char>) -> Option<Seq<char>> {
    let t = trim(raw);
    if t.len() == 0 {
        None
    } else if t.len() <= MAX_LABEL_CHARS {
        Some(t)
    } else {
        Some(t.take(MAX_LABEL_CHARS as int))
    }
}

/// Whether the `clips` table, with these column names, still lacks the
/// `label` column that later versions added.
pub fn needs_label_column(column_names: &Vec<String>) -> (r: bool)
    ensures
        r == !(exists|i: int| 0 <= i < column_names.len() && #[trigger] column_names@[i]@ == "label"@),
{
    let mut i: usize = 0;
    while i < column_names.len()
        invariant
            i <= column_names.len(),
            forall|j: int| 0 <= j < i ==> #[trigger] column_names@[j]@ != "label"@,
        decreases column_names.len() - i,
    {
        if str_equals(column_names[i].as_str(), "label") {
            return false;
        }
        i = i + 1;
    }
    true
}

/// The label to store for user input `raw`.
pub fn normalize_label(raw: &str) -> (r: Option<String>)
    ensures
        match r {
            Some(s) => label_to_store(raw@) == Some(s@),
            None => label_to_store(raw@) is None,
        },
{
    let v = chars_of(raw);
    let (i, j) = strip_bounds(&v, CharClass::Whitespace);
    if i == j {
        return None;
    }
    let end = if j - i <= MAX_LABEL_CHARS {
        j
    } else {
        i + MAX_LABEL_CHARS
    };
    let s = string_of(&v, i, end);
    assert(s@ =~= (if j - i <= MAX_LABEL_CHARS {
        trim(raw@)
    } else {
        trim(raw@).take(MAX_LABEL_CHARS as int)
    }));
    Some(s)
}

/// The label that `set_label` stores: the normalized input, or none.
pub fn label_for_update(label: Option<&str>) -> (r: Option<String>)
    ensures
        match label {
            Some(l) => match r {
                Some(s) => label_to_store(l@) == Some(s@),
                None => label_to_store(l@) is None,
            },
            None => r is None,
        },
{
    match label {
        Some(l) => normalize_label(l),
        None => None,
    }
}

/// A stored label as it is shown: trimmed, and absent when empty.
pub open spec fn label_as_read(stored: Option<Seq<char>>) -> Option<Seq<char>> {
    match stored {
        Some(s) => if trim(s).len() == 0 {
            None
        } else {
            Some(trim(s))
        },
        None => None,
    }
}

pub open spec fn opt_view(o: Option<String>) -> Option<Seq<char>> {
    match o {
        Some(s) => Some(s@),
        None => None,
    }
}

/// A clip from the columns of a stored row: `pinned` is any non-zero flag
/// and the label is trimmed, an empty one counting as none.
pub fn read_clip_row(
    id: i64,
    plaintext: String,
    created_ms: i64,
    pinned: i64,
    label: Option<String>,
) -> (row: ClipRow)
    ensures
        row.id == id,
        row.plaintext == plaintext,
        row.created_ms == created_ms,
        row.pinned == (pinned != 0),
        opt_view(row.label) == label_as_read(opt_view(label)),
{
    let label = match label {
        Some(s) => {
            let t = trim_str(s.as_str());
            if t.as_str().is_empty() {
                None
            } else {
                Some(t)
            }
        },
        None => None,
    };
    ClipRow { id, plaintext, created_ms, pinned: pinned != 0, label }
}

/// One character as it stands in a `LIKE` pattern with `\` as escape.
pub open spec fn escape_char(c: char) -> Seq<char> {
    if c == '\\' || c == '%' || c == '_' {
        seq!['\\', c]
    } else {
        seq![c]
    }
}

/// User input as a literal inside a `LIKE ... ESCAPE '\'` pattern: each
/// `\`, `%` and `_` is preceded by `\`.
pub open spec fn escape_like(s: Seq<char>) -> Seq<char>
    decreases s.len(),
{
    if s.len() == 0 {
        seq![]
    } else {
        escape_like(s.drop_last()) + escape_char(s.last())
    }
}

/// `q` escaped for use in a `LIKE` pattern.
pub fn escape_like_user_input(q: &str) -> (r: String)
    ensures
        r@ == escape_like(q@),
{
    let v = chars_of(q);
    let mut r = String::new();
    let mut i: usize = 0;
    while i < v.len()
        invariant
            i <= v.len(),
            v@ == q@,
            r@ == escape_like(v@.take(i as int)),
        decreases v.len() - i,
    {
        let c = v[i];
        assert(v@.take(i + 1).drop_last() =~= v@.take(i as int));
        if c == '\\' || c == '%' || c == '_' {
            r.push('\\');
        }
        r.push(c);
        assert(r@ =~= escape_like(v@.take(i + 1)));
        i = i + 1;
    }
    assert(v@.take(v.len() as int) =~= v@);
    r
}

/// The `LIKE` pattern that finds `query` anywhere in a text.
pub open spec fn search_pattern_of(query: Seq<char>) -> Seq<char> {
    seq!['%'] + escape_like(query) + seq!['%']
}

/// The pattern with which `search` matches clip texts and labels.
pub fn search_pattern(query: &str) -> (r: String)
    ensures
        r@ == search_pattern_of(query@),
{
    let mut r = String::new();
    r.push('%');
    let e = escape_like_user_input(query);
    r.append(e.as_str());
    r.push('%');
    r
}

/// Rows the picker lists when no limit is given.
pub const DEFAULT_LIST_LIMIT: i64 = 80;

/// A request for clips: the most recent ones, or those matching a pattern.
#[derive(Debug)]
pub enum ClipQuery {
    Recent { limit: i64 },
    Matching { pattern: String, limit: i64 },
}

/// The clip request for a picker search: `query` trimmed; an empty one
/// lists the most recent clips, any other is matched as a pattern; the
/// limit defaults to [`DEFAULT_LIST_LIMIT`].
pub fn plan_clip_search(query: &str, limit: Option<i64>) -> (r: ClipQuery)
    ensures
        ({
            let n = match limit {
                Some(l) => l,
                None => DEFAULT_LIST_LIMIT,
            };
            match r {
                ClipQuery::Recent { limit: l } => trim(query@).len() == 0 && l == n,
                ClipQuery::Matching { pattern, limit: l } => {
                    &&& trim(query@).len() > 0
                    &&& pattern@ == search_pattern_of(trim(query@))
                    &&& l == n
                },
            }
        }),
{
    let n = match limit {
        Some(l) => l,
        None => DEFAULT_LIST_LIMIT,
    };
    let q = trim_str(query);
    if q.as_str().is_empty() {
        ClipQuery::Recent { limit: n }
    } else {
        ClipQuery::Matching { pattern: search_pattern(q.as_str()), limit: n }
    }
}

/// What the capture of a clipboard text does to the history.
#[derive(Debug)]
pub enum CaptureAction {
    /// Nothing: the text is too large or blank.
    Skip,
    /// The newest clip has the same fingerprint: refresh its timestamp.
    Refresh { id: i64 },
    /// Store `text` as a new clip.
    Insert { text: String },
}

/// [`CaptureAction`] as plain values.
pub enum CaptureModel {
    Skip,
    Refresh(i64),
    Insert(Seq<char>),
}

pub open spec fn action_model(a: CaptureAction) -> CaptureModel {
    match a {
        CaptureAction::Skip => CaptureModel::Skip,
        CaptureAction::Refresh { id } => CaptureModel::Refresh(id),
        CaptureAction::Insert { text } => CaptureModel::Insert(text@),
    }
}

/// The text that a capture stores: leading byte-order marks removed, then
/// NUL characters at both ends, then white space at both ends.
pub open spec fn capture_body(p: Seq<char>) -> Seq<char> {
    trim(strip_both(strip_leading(p, CharClass::Only('\u{feff}')), CharClass::Only('\0')))
}

/// What capturing clipboard text `p` does, given the newest stored clip.
pub open spec fn capture_plan(p: Seq<char>, newest: Option<(i64, Seq<char>)>) -> CaptureModel {
    if utf8_len(p) > CLIPBOARD_MAX_CHARS {
        CaptureModel::Skip
    } else {
        let body = capture_body(p);
        let fp = fingerprint(body);
        if fp.len() == 0 {
            CaptureModel::Skip
        } else {
            match newest {
                Some((id, text)) => {
                    let prev_fp = fingerprint(trim(text));
                    if prev_fp == fp && prev_fp.len() > 0 {
                        CaptureModel::Refresh(id)
                    } else {
                        CaptureModel::Insert(body)
                    }
                },
                None => CaptureModel::Insert(body),
            }
        }
    }
}

pub open spec fn newest_view(n: Option<(i64, String)>) -> Option<(i64, Seq<char>)> {
    match n {
        Some((id, t)) => Some((id, t@)),
        None => None,
    }
}

/// The text to store for clipboard text `plaintext`, or `None` when the
/// capture is skipped: the text is over [`CLIPBOARD_MAX_CHARS`] bytes or
/// its fingerprint is empty. The text is cleaned as [`capture_body`] says.
pub fn capture_text(plaintext: &str) -> (body: Option<String>)
    ensures
        match body {
            Some(b) => {
                &&& utf8_len(plaintext@) <= CLIPBOARD_MAX_CHARS
                &&& b@ == capture_body(plaintext@)
                &&& fingerprint(b@).len() > 0
            },
            None => utf8_len(plaintext@) > CLIPBOARD_MAX_CHARS || fingerprint(
                capture_body(plaintext@),
            ).len() == 0,
        },
{
    if utf8_len_exceeds(plaintext, CLIPBOARD_MAX_CHARS) {
        return None;
    }
    let v = chars_of(plaintext);
    let n = v.len();
    assert(v@.subrange(0, n as int) =~= v@);
    let i1 = skip_leading(&v, 0, n, CharClass::Only('\u{feff}'));
    let i2 = skip_leading(&v, i1, n, CharClass::Only('\0'));
    let j2 = skip_trailing(&v, i2, n, CharClass::Only('\0'));
    let i3 = skip_leading(&v, i2, j2, CharClass::Whitespace);
    let j3 = skip_trailing(&v, i3, j2, CharClass::Whitespace);
    let body = string_of(&v, i3, j3);
    assert(body@ == capture_body(plaintext@));
    let fp = fingerprint_plaintext(body.as_str());
    if fp.as_str().is_empty() {
        return None;
    }
    Some(body)
}

/// What storing `body` does, given the newest stored clip.
pub open spec fn store_plan(body: Seq<char>, newest: Option<(i64, Seq<char>)>) -> CaptureModel {
    match newest {
        Some((id, text)) => {
            let prev_fp = fingerprint(trim(text));
            if prev_fp == fingerprint(body) && prev_fp.len() > 0 {
                CaptureModel::Refresh(id)
            } else {
                CaptureModel::Insert(body)
            }
        },
        None => CaptureModel::Insert(body),
    }
}

/// Whether to store `body` as a new clip or to refresh the newest clip
/// (its id and text), whose fingerprint may equal that of `body`
/// (consecutive duplicate suppression).
pub fn decide_capture(body: String, newest: Option<(i64, String)>) -> (a: CaptureAction)
    ensures
        action_model(a) == store_plan(body@, newest_view(newest)),
{
    match newest {
        Some((id, text)) => {
            let fp = fingerprint_plaintext(body.as_str());
            let t = trim_str(text.as_str());
            let prev_fp = fingerprint_plaintext(t.as_str());
            if prev_fp == fp && !prev_fp.as_str().is_empty() {
                CaptureAction::Refresh { id }
            } else {
                CaptureAction::Insert { text: body }
            }
        },
        None => CaptureAction::Insert { text: body },
    }
}

/// Decides what capturing `plaintext` does, given the newest stored clip
/// (its id and text): texts over [`CLIPBOARD_MAX_CHARS`] bytes and blank
/// texts are skipped; a text whose fingerprint equals the newest clip's
/// refreshes that clip (consecutive duplicate suppression); any other is
/// inserted in its cleaned form.
pub fn record_plaintext_capture(plaintext: &str, newest: Option<(i64, String)>) -> (a:
    CaptureAction)
    ensures
        action_model(a) == capture_plan(plaintext@, newest_view(newest)),
{
    match capture_text(plaintext) {
        None => CaptureAction::Skip,
        Some(body) => decide_capture(body, newest),
    }
}

/// The retention key of a stored clip.
#[derive(Clone, Copy, Debug, PartialEq, Eq, Structural)]
pub struct ClipKey {
    pub id: i64,
    pub created_ms: i64,
    pub pinned: bool,
}

/// `a - b`, clamped to the range of `i64` (`i64::saturating_sub`).
pub open spec fn sat_sub(a: i64, b: i64) -> i64 {
    if a - b < i64::MIN {
        i64::MIN
    } else if a - b > i64::MAX {
        i64::MAX
    } else {
        (a - b) as i64
    }
}

/// The creation time before which unpinned clips expire, if age eviction
/// is on.
pub open spec fn age_cutoff(limits: HistoryLimits, now_ms: i64) -> Option<i64> {
    match limits.max_age_ms {
        Some(ttl) => Some(sat_sub(now_ms, ttl)),
        None => None,
    }
}

/// How many clips the cap keeps: `max_rows`, but at least one.
pub open spec fn keep_count(limits: HistoryLimits) -> int {
    if limits.max_rows < 1 {
        1
    } else {
        limits.max_rows as int
    }
}

/// Whether the age limit removes clip `k`: it is unpinned and older than
/// the cutoff.
pub open spec fn expired(k: ClipKey, cutoff: Option<i64>) -> bool {
    match cutoff {
        Some(c) => !k.pinned && k.created_ms < c,
        None => false,
    }
}

/// How many of `rows` the age limit leaves.
pub open spec fn unexpired_count(rows: Seq<ClipKey>, cutoff: Option<i64>) -> nat
    decreases rows.len(),
{
    if rows.len() == 0 {
        0
    } else {
        unexpired_count(rows.drop_last(), cutoff) + if expired(rows.last(), cutoff) {
            0nat
        } else {
            1nat
        }
    }
}

/// Whether retention removes the clip at index `i` of `rows` (listed in
/// retention order): it expired, or `keep` unexpired clips come before it.
pub open spec fn evicted_at(rows: Seq<ClipKey>, i: int, cutoff: Option<i64>, keep: int) -> bool {
    expired(rows[i], cutoff) || unexpired_count(rows.take(i), cutoff) >= keep
}

/// The ids of the clips that retention removes, in the order of `rows`.
pub open spec fn evicted_ids(rows: Seq<ClipKey>, cutoff: Option<i64>, keep: int) -> Seq<i64>
    decreases rows.len(),
{
    if rows.len() == 0 {
        seq![]
    } else {
        let prev = evicted_ids(rows.drop_last(), cutoff, keep);
        if evicted_at(rows, rows.len() - 1, cutoff, keep) {
            prev.push(rows.last().id)
        } else {
            prev
        }
    }
}

/// `a - b` clamped to the range of `i64`.
pub fn saturating_sub(a: i64, b: i64) -> (r: i64)
    ensures
        r == sat_sub(a, b),
{
    if b > 0 && a < i64::MIN + b {
        i64::MIN
    } else if b < 0 && a > i64::MAX + b {
        i64::MAX
    } else {
        a - b
    }
}

/// The clips that retention removes under `limits` at time `now_ms`, given
/// every stored clip in retention order (pinned first, then newest first,
/// then highest id first): unpinned clips older than the age limit, and
/// every clip after the first `max_rows` (at least one) of those left.
pub fn prune_and_cap(rows_by_rank: &Vec<ClipKey>, limits: HistoryLimits, now_ms: i64) -> (ids: Vec<
    i64,
>)
    ensures
        ids@ == evicted_ids(rows_by_rank@, age_cutoff(limits, now_ms), keep_count(limits)),
{
    let cutoff: Option<i64> = match limits.max_age_ms {
        Some(ttl) => Some(saturating_sub(now_ms, ttl)),
        None => None,
    };
    let keep: u64 = if limits.max_rows < 1 {
        1
    } else {
        limits.max_rows as u64
    };
    let ghost rows = rows_by_rank@;
    let ghost k = keep_count(limits);
    let mut ids: Vec<i64> = Vec::new();
    let mut kept: u64 = 0;
    let mut i: usize = 0;
    while i < rows_by_rank.len()
        invariant
            i <= rows_by_rank.len(),
            rows == rows_by_rank@,
            cutoff == age_cutoff(limits, now_ms),
            keep == k,
            k >= 1,
            kept == unexpired_count(rows.take(i as int), cutoff),
            kept <= i,
            ids@ == evicted_ids(rows.take(i as int), cutoff, k),
        decreases rows_by_rank.len() - i,
    {
        let r = rows_by_rank[i];
        let ghost pre = rows.take(i as int);
        let ghost post = rows.take(i + 1);
        assert(post.drop_last() =~= pre);
        assert(post.take(i as int) =~= pre);
        assert(post.last() == r);
        let is_expired = match cutoff {
            Some(c) => !r.pinned && r.created_ms < c,
            None => false,
        };
        assert(is_expired == expired(r, cutoff));
        if is_expired || kept >= keep {
            ids.push(r.id);
        }
        if !is_expired {
            kept = kept + 1;
        }
        i = i + 1;
    }
    assert(rows.take(rows_by_rank.len() as int) =~= rows);
    ids
}

/// Fingerprinting is a normalization: a fingerprint is its own fingerprint.
pub proof fn law_fingerprint_idempotent(s: Seq<char>)
    ensures
        fingerprint(fingerprint(s)) == fingerprint(s),
{
    lemma_collapse_trim_idempotent(s);
}

/// White space around a text does not change its fingerprint.
pub proof fn law_fingerprint_ignores_outer_whitespace(s: Seq<char>)
    ensures
        fingerprint(trim(s)) == fingerprint(s),
{
    lemma_trim_idempotent(s);
}

/// A stored capture is clean: non-empty, with no white space at either end.
pub proof fn law_inserted_text_is_trimmed(p: Seq<char>, newest: Option<(i64, Seq<char>)>)
    requires
        capture_plan(p, newest) is Insert,
    ensures
        ({
            let b = capture_body(p);
            &&& capture_plan(p, newest) == CaptureModel::Insert(b)
            &&& trim(b) == b
            &&& b.len() > 0
        }),
{
    let inner = strip_both(strip_leading(p, CharClass::Only('\u{feff}')), CharClass::Only('\0'));
    lemma_trim_idempotent(inner);
    let b = capture_body(p);
    if b.len() == 0 {
        assert(trim(b) =~= b);
        assert(words(b) == Seq::<Seq<char>>::empty());
    }
}

/// Consecutive duplicate suppression: once a capture has stored its text,
/// capturing any text with the same fingerprint refreshes that clip
/// instead of storing another.
pub proof fn law_duplicate_capture_refreshes(
    p: Seq<char>,
    newest: Option<(i64, Seq<char>)>,
    again: Seq<char>,
    id: i64,
)
    requires
        capture_plan(p, newest) is Insert,
        utf8_len(again) <= CLIPBOARD_MAX_CHARS,
        fingerprint(capture_body(again)) == fingerprint(capture_body(p)),
    ensures
        capture_plan(again, Some((id, capture_body(p)))) == CaptureModel::Refresh(id),
{
    law_inserted_text_is_trimmed(p, newest);
}

/// A pinned clip never expires: retention removes it only when the row cap
/// is already filled by clips ranked before it.
pub proof fn law_pinned_clips_do_not_expire(
    rows: Seq<ClipKey>,
    i: int,
    cutoff: Option<i64>,
    keep: int,
)
    requires
        0 <= i < rows.len(),
        rows[i].pinned,
        evicted_at(rows, i, cutoff, keep),
    ensures
        unexpired_count(rows.take(i), cutoff) >= keep,
{
}

/// Retention keeps exactly as many clips as the cap allows of those that
/// did not expire: `min(unexpired, keep)`.
pub proof fn law_retention_keeps_min(rows: Seq<ClipKey>, cutoff: Option<i64>, keep: int)
    requires
        keep >= 1,
    ensures
        rows.len() - evicted_ids(rows, cutoff, keep).len() == if unexpired_count(rows, cutoff)
            <= keep {
            unexpired_count(rows, cutoff) as int
        } else {
            keep
        },
    decreases rows.len(),
{
    if rows.len() > 0 {
        let pre = rows.drop_last();
        law_retention_keeps_min(pre, cutoff, keep);
        assert(rows.take(rows.len() - 1) =~= pre);
    }
}

/// A label that fits reads back exactly as it was stored.
pub proof fn law_label_reads_back(raw: Seq<char>)
    requires
        0 < trim(raw).len() <= MAX_LABEL_CHARS,
    ensures
        label_as_read(label_to_store(raw)) == label_to_store(raw),
{
    lemma_trim_idempotent(raw);
}

/// A stored label is non-empty, at most [`MAX_LABEL_CHARS`] characters and
/// starts with a non-white-space character.
pub proof fn law_stored_label_shape(raw: Seq<char>)
    requires
        label_to_store(raw) is Some,
    ensures
        ({
            let l = label_to_store(raw)->0;
            &&& 0 < l.len() <= MAX_LABEL_CHARS
            &&& !is_ws(l[0])
        }),
{
    lemma_strip_both_shape(raw, CharClass::Whitespace);
}

/// Whether clip `a` ranks before clip `b` in retention order: pinned
/// first, then newer first, then higher id first.
pub open spec fn ranks_before(a: ClipKey, b: ClipKey) -> bool {
    ||| a.pinned && !b.pinned
    ||| a.pinned == b.pinned && a.created_ms > b.created_ms
    ||| a.pinned == b.pinned && a.created_ms == b.created_ms && a.id > b.id
}

/// Clips listed in retention order (the order in which the store reads
/// them for pruning).
pub open spec fn in_retention_order(rows: Seq<ClipKey>) -> bool {
    forall|i: int, j: int| 0 <= i < j < rows.len() ==> ranks_before(#[trigger] rows[i], #[trigger] rows[j])
}

/// More clips listed never means fewer unexpired ones.
proof fn lemma_unexpired_count_monotone(rows: Seq<ClipKey>, i: int, j: int, cutoff: Option<i64>)
    requires
        0 <= i <= j <= rows.len(),
    ensures
        unexpired_count(rows.take(i), cutoff) <= unexpired_count(rows.take(j), cutoff),
    decreases j - i,
{
    if i < j {
        lemma_unexpired_count_monotone(rows, i, j - 1, cutoff);
        assert(rows.take(j).drop_last() =~= rows.take(j - 1));
    }
}

/// Pinned clips go last: in retention order, when the cap removes a pinned
/// clip, every unpinned clip is removed too.
pub proof fn law_pinned_clips_go_last(
    rows: Seq<ClipKey>,
    i: int,
    j: int,
    cutoff: Option<i64>,
    keep: int,
)
    requires
        in_retention_order(rows),
        0 <= i < rows.len(),
        0 <= j < rows.len(),
        rows[i].pinned,
        !rows[j].pinned,
        evicted_at(rows, i, cutoff, keep),
    ensures
        evicted_at(rows, j, cutoff, keep),
{
    if j < i {
        assert(ranks_before(rows[j], rows[i]));
    }
    assert(i < j);
    lemma_unexpired_count_monotone(rows, i, j, cutoff);
}

/// Older unpinned clips go first: in retention order, when retention
/// removes an unpinned clip, it removes every older unpinned clip too.
pub proof fn law_older_unpinned_clips_go_first(
    rows: Seq<ClipKey>,
    i: int,
    j: int,
    cutoff: Option<i64>,
    keep: int,
)
    requires
        in_retention_order(rows),
        0 <= i < j < rows.len(),
        !rows[i].pinned,
        !rows[j].pinned,
        evicted_at(rows, i, cutoff, keep),
    ensures
        evicted_at(rows, j, cutoff, keep),
{
    assert(ranks_before(rows[i], rows[j]));
    lemma_unexpired_count_monotone(rows, i, j, cutoff);
}

/// The text a capture stores is a contiguous piece of the clipboard text:
/// cleaning only cuts characters off the two ends, never inside.
pub proof fn law_capture_body_is_a_slice(p: Seq<char>)
    ensures
        exists|i: int, j: int|
            0 <= i <= j <= p.len() && #[trigger] p.subrange(i, j) == capture_body(p),
{
    let bom = CharClass::Only('\u{feff}');
    let nul = CharClass::Only('\0');
    let ws = CharClass::Whitespace;
    let s1 = strip_leading(p, bom);
    lemma_strip_leading_shape(p, bom);
    let i1 = p.len() - s1.len();
    assert(s1 =~= p.subrange(i1, p.len() as int));
    let s2 = strip_leading(s1, nul);
    lemma_strip_leading_shape(s1, nul);
    let i2 = i1 + (s1.len() - s2.len());
    assert(s2 =~= p.subrange(i2, p.len() as int));
    let s3 = strip_trailing(s2, nul);
    lemma_strip_trailing_shape(s2, nul);
    let j3 = i2 + s3.len();
    assert(s3 =~= p.subrange(i2, j3));
    let s4 = strip_leading(s3, ws);
    lemma_strip_leading_shape(s3, ws);
    let i4 = i2 + (s3.len() - s4.len());
    assert(s4 =~= p.subrange(i4, j3));
    let s5 = strip_trailing(s4, ws);
    lemma_strip_trailing_shape(s4, ws);
    let j5 = i4 + s5.len();
    assert(s5 =~= p.subrange(i4, j5));
    assert(s5 == capture_body(p));
    assert(0 <= i4 <= j5 <= p.len() && p.subrange(i4, j5) == capture_body(p));
}

/// A clipboard text that needs no cleaning (no byte-order mark or NUL at its
/// start, no NUL at its end, no white space at either end) is stored exactly
/// as it is, inner white space and line breaks included.
pub proof fn law_capture_keeps_clean_text(p: Seq<char>)
    requires
        p.len() > 0,
        !is_ws(p[0]),
        !is_ws(p.last()),
        p[0] != '\u{feff}',
        p[0] != '\0',
        p.last() != '\0',
        utf8_len(p) <= CLIPBOARD_MAX_CHARS,
    ensures
        capture_body(p) == p,
        capture_plan(p, None) == CaptureModel::Insert(p),
{
    let nul = CharClass::Only('\0');
    assert(strip_leading(p, CharClass::Only('\u{feff}')) == p);
    assert(strip_leading(p, nul) == p);
    assert(strip_trailing(p, nul) == p);
    lemma_strip_both_noop(p, CharClass::Whitespace);
    assert(capture_body(p) == p);
    lemma_words_nonempty(p);
    lemma_words_are_words(p);
    lemma_join_ends(words(p));
    assert(fingerprint(p).len() > 0);
}

/// Undoes LIKE escaping: a `\` makes the next character literal.
pub open spec fn unescape_like(e: Seq<char>) -> Seq<char>
    decreases e.len(),
{
    if e.len() == 0 {
        seq![]
    } else if e[0] == '\\' && e.len() >= 2 {
        seq![e[1]] + unescape_like(e.skip(2))
    } else {
        seq![e[0]] + unescape_like(e.drop_first())
    }
}

proof fn lemma_escape_like_cons(c: char, rest: Seq<char>)
    ensures
        escape_like(seq![c] + rest) == escape_char(c) + escape_like(rest),
    decreases rest.len(),
{
    let whole = seq![c] + rest;
    if rest.len() == 0 {
        assert(whole =~= seq![c]);
        assert(whole.drop_last() =~= Seq::<char>::empty());
        assert(escape_like(Seq::<char>::empty()) == Seq::<char>::empty());
        assert(escape_char(c) + escape_like(rest) =~= escape_char(c));
        assert(escape_like(whole) =~= escape_char(c));
    } else {
        lemma_escape_like_cons(c, rest.drop_last());
        assert(whole.drop_last() =~= seq![c] + rest.drop_last());
        assert(whole.last() == rest.last());
        assert(escape_like(whole) =~= escape_char(c) + escape_like(rest));
    }
}

/// Escaping loses nothing: removing the escapes gives the query back, every
/// character (spaces included) in its place.
pub proof fn law_escape_like_round_trip(s: Seq<char>)
    ensures
        unescape_like(escape_like(s)) == s,
    decreases s.len(),
{
    if s.len() == 0 {
        assert(escape_like(s) == Seq::<char>::empty());
    } else {
        let c = s[0];
        let rest = s.drop_first();
        assert(seq![c] + rest =~= s);
        lemma_escape_like_cons(c, rest);
        law_escape_like_round_trip(rest);
        let e = escape_like(s);
        let er = escape_like(rest);
        if c == '\\' || c == '%' || c == '_' {
            assert(e =~= seq!['\\', c] + er);
            assert(e.skip(2) =~= er);
            assert(unescape_like(e) == seq![c] + unescape_like(er));
        } else {
            assert(e =~= seq![c] + er);
            assert(e.drop_first() =~= er);
            assert(unescape_like(e) == seq![c] + unescape_like(er));
        }
    }
}

/// A query without `\`, `%` or `_` is escaped to itself.
pub proof fn law_escape_like_plain_query(s: Seq<char>)
    requires
        forall|j: int| 0 <= j < s.len() ==> #[trigger] s[j] != '\\' && s[j] != '%' && s[j] != '_',
    ensures
        escape_like(s) == s,
    decreases s.len(),
{
    if s.len() > 0 {
        let p = s.drop_last();
        assert forall|j: int| 0 <= j < p.len() implies #[trigger] p[j] != '\\' && p[j] != '%'
            && p[j] != '_' by {
            assert(p[j] == s[j]);
        }
        law_escape_like_plain_query(p);
        assert(s.last() == s[s.len() - 1]);
        assert(p.push(s.last()) =~= s);
    }
}

} // verus!
