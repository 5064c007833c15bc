//! Character-level text helpers: trimming, whitespace collapsing,
//! ASCII case mapping and string building, each with its specification
//! over the character sequence (`Seq<char>`) that a string views as.
use vstd::prelude::*;

verus! {

/// `String::push` appends one character.
pub assume_specification[ String::push ](s: &mut String, ch: char)
    ensures
        final(s)@ == old(s)@.push(ch),
;

/// Whether `c` is a white-space character in the sense of Unicode's
/// `White_Space` property (the property that `char::is_whitespace`,
/// `str::trim` and `str::split_whitespace` go by).
pub open spec fn is_ws(c: char) -> bool {
    ||| ('\u{9}' <= c && c <= '\u{d}')
    ||| c == ' '
    ||| c == '\u{85}'
    ||| c == '\u{a0}'
    ||| c == '\u{1680}'
    ||| ('\u{2000}' <= c && c <= '\u{200a}')
    ||| c == '\u{2028}'
    ||| c == '\u{2029}'
    ||| c == '\u{202f}'
    ||| c == '\u{205f}'
    ||| c == '\u{3000}'
}

/// Executable test for [`is_ws`].
pub fn is_whitespace(c: char) -> (b: bool)
    ensures
        b == is_ws(c),
{
    ('\u{9}' <= c && c <= '\u{d}') || c == ' ' || c == '\u{85}' || c == '\u{a0}' || c
        == '\u{1680}' || ('\u{2000}' <= c && c <= '\u{200a}') || c == '\u{2028}' || c
        == '\u{2029}' || c == '\u{202f}' || c == '\u{205f}' || c == '\u{3000}'
}

/// Which characters a trimming step removes.
#[derive(Clone, Copy)]
pub enum CharClass {
    /// Unicode white space ([`is_ws`]).
    Whitespace,
    /// Exactly this character.
    Only(char),
}

pub open spec fn in_class(k: CharClass, c: char) -> bool {
    match k {
        CharClass::Whitespace => is_ws(c),
        CharClass::Only(x) => c == x,
    }
}

fn class_matches(k: CharClass, c: char) -> (b: bool)
    ensures
        b == in_class(k, c),
{
    match k {
        CharClass::Whitespace => is_whitespace(c),
        CharClass::Only(x) => c == x,
    }
}

/// `s` without its leading characters of class `k`.
pub open spec fn strip_leading(s: Seq<char>, k: CharClass) -> Seq<char>
    decreases s.len(),
{
    if s.len() > 0 && in_class(k, s[0]) {
        strip_leading(s.drop_first(), k)
    } else {
        s
    }
}

/// `s` without its trailing characters of class `k`.
pub open spec fn strip_trailing(s: Seq<char>, k: CharClass) -> Seq<char>
    decreases s.len(),
{
    if s.len() > 0 && in_class(k, s.last()) {
        strip_trailing(s.drop_last(), k)
    } else {
        s
    }
}

/// `s` without leading and trailing characters of class `k`.
pub open spec fn strip_both(s: Seq<char>, k: CharClass) -> Seq<char> {
    strip_trailing(strip_leading(s, k), k)
}

/// `s` without leading and trailing white space (what `str::trim` returns).
pub open spec fn trim(s: Seq<char>) -> Seq<char> {
    strip_both(s, CharClass::Whitespace)
}

/// The characters of `s`, in order.
pub fn chars_of(s: &str) -> (v: Vec<char>)
    ensures
        v@ == s@,
{
    let mut v: Vec<char> = Vec::new();
    for c in it: s.chars()
        invariant
            v@ == it.seq().take(it.index() as int),
            it.seq() == s@,
    {
        v.push(c);
    }
    v
}

/// The string made of `v[lo..hi]`.
pub fn string_of(v: &Vec<char>, lo: usize, hi: usize) -> (s: String)
    requires
        lo <= hi <= v.len(),
    ensures
        s@ == v@.subrange(lo as int, hi as int),
{
    let mut s = String::new();
    let mut i = lo;
    while i < hi
        invariant
            lo <= i <= hi <= v.len(),
            s@ == v@.subrange(lo as int, i as int),
        decreases hi - i,
    {
        s.push(v[i]);
        i = i + 1;
    }
    s
}

/// First index at or after `lo` where `v[..hi]` stops holding characters
/// of class `k`.
pub fn skip_leading(v: &Vec<char>, lo: usize, hi: usize, k: CharClass) -> (i: usize)
    requires
        lo <= hi <= v.len(),
    ensures
        lo <= i <= hi,
        strip_leading(v@.subrange(lo as int, hi as int), k) == v@.subrange(i as int, hi as int),
{
    let mut i = lo;
    while i < hi && class_matches(k, v[i])
        invariant
            lo <= i <= hi <= v.len(),
            strip_leading(v@.subrange(lo as int, hi as int), k) == strip_leading(
                v@.subrange(i as int, hi as int),
                k,
            ),
        decreases hi - i,
    {
        assert(v@.subrange(i as int, hi as int).drop_first() =~= v@.subrange(
            i + 1,
            hi as int,
        ));
        i = i + 1;
    }
    i
}

/// Last index (exclusive) at or before `hi` where `v[lo..]` stops holding
/// characters of class `k`.
pub fn skip_trailing(v: &Vec<char>, lo: usize, hi: usize, k: CharClass) -> (j: usize)
    requires
        lo <= hi <= v.len(),
    ensures
        lo <= j <= hi,
        strip_trailing(v@.subrange(lo as int, hi as int), k) == v@.subrange(lo as int, j as int),
{
    let mut j = hi;
    while j > lo && class_matches(k, v[j - 1])
        invariant
            lo <= j <= hi <= v.len(),
            strip_trailing(v@.subrange(lo as int, hi as int), k) == strip_trailing(
                v@.subrange(lo as int, j as int),
                k,
            ),
        decreases j - lo,
    {
        assert(v@.subrange(lo as int, j as int).drop_last() =~= v@.subrange(
            lo as int,
            j - 1,
        ));
        j = j - 1;
    }
    j
}

/// Bounds `(i, j)` such that `v[i..j]` is `v` with leading and trailing
/// characters of class `k` removed.
pub fn strip_bounds(v: &Vec<char>, k: CharClass) -> (r: (usize, usize))
    ensures
        r.0 <= r.1 <= v.len(),
        strip_both(v@, k) == v@.subrange(r.0 as int, r.1 as int),
{
    let i = skip_leading(v, 0, v.len(), k);
    assert(v@.subrange(0, v.len() as int) =~= v@);
    let j = skip_trailing(v, i, v.len(), k);
    (i, j)
}

/// `s` without leading and trailing white space.
pub fn trim_str(s: &str) -> (r: String)
    ensures
        r@ == trim(s@),
{
    let v = chars_of(s);
    let (i, j) = strip_bounds(&v, CharClass::Whitespace);
    string_of(&v, i, j)
}

/// ASCII upper-case of one character (other characters are unchanged).
pub open spec fn ascii_upper(c: char) -> char {
    if 'a' <= c && c <= 'z' {
        ((c as u8) - 32) as u8 as char
    } else {
        c
    }
}

pub fn to_ascii_upper(c: char) -> (r: char)
    ensures
        r == ascii_upper(c),
{
    if 'a' <= c && c <= 'z' {
        ((c as u8) - 32) as char
    } else {
        c
    }
}

/// `s` with each ASCII lower-case letter mapped to upper case.
pub open spec fn ascii_upper_seq(s: Seq<char>) -> Seq<char> {
    s.map_values(|c: char| ascii_upper(c))
}

/// ASCII upper-case of a whole string (`str::to_ascii_uppercase`).
pub fn to_ascii_upper_str(s: &str) -> (r: String)
    ensures
        r@ == ascii_upper_seq(s@),
{
    let v = chars_of(s);
    let mut r = String::new();
    let mut i: usize = 0;
    while i < v.len()
        invariant
            i <= v.len(),
            v@ == s@,
            r@ == ascii_upper_seq(v@.take(i as int)),
        decreases v.len() - i,
    {
        let c = to_ascii_upper(v[i]);
        assert(ascii_upper_seq(v@.take(i + 1)) =~= ascii_upper_seq(v@.take(i as int)).push(c));
        r.push(c);
        i = i + 1;
    }
    assert(v@.take(v.len() as int) =~= v@);
    r
}

pub open spec fn is_ascii_alpha(c: char) -> bool {
    ('a' <= c && c <= 'z') || ('A' <= c && c <= 'Z')
}

pub open spec fn is_ascii_digit(c: char) -> bool {
    '0' <= c && c <= '9'
}

/// The maximal runs of non-white-space characters of `s`, in order
/// (what `str::split_whitespace` yields).
pub open spec fn words(s: Seq<char>) -> Seq<Seq<char>>
    decreases s.len(),
{
    if s.len() == 0 {
        seq![]
    } else {
        let w = words(s.drop_last());
        let c = s.last();
        if is_ws(c) {
            w
        } else if s.len() >= 2 && !is_ws(s[s.len() - 2]) {
            w.update(w.len() - 1, w.last().push(c))
        } else {
            w.push(seq![c])
        }
    }
}

/// The pieces of `ws` joined with `sep` between neighbours.
pub open spec fn join(ws: Seq<Seq<char>>, sep: Seq<char>) -> Seq<char>
    decreases ws.len(),
{
    if ws.len() == 0 {
        seq![]
    } else if ws.len() == 1 {
        ws[0]
    } else {
        join(ws.drop_last(), sep) + sep + ws.last()
    }
}

/// The whitespace-normalized form of `s`: its words joined by single spaces.
pub open spec fn collapse_ws(s: Seq<char>) -> Seq<char> {
    join(words(s), seq![' '])
}

/// A text that ends in a non-white-space character has at least one word.
pub proof fn lemma_words_nonempty(s: Seq<char>)
    requires
        s.len() > 0,
        !is_ws(s.last()),
    ensures
        words(s).len() > 0,
    decreases s.len(),
{
    if s.len() >= 2 && !is_ws(s[s.len() - 2]) {
        lemma_words_nonempty(s.drop_last());
    }
}

/// `s` with every maximal run of white space replaced by one space and
/// leading and trailing white space removed.
pub fn collapse_whitespace(s: &str) -> (r: String)
    ensures
        r@ == collapse_ws(s@),
{
    let v = chars_of(s);
    let mut r = String::new();
    let mut i: usize = 0;
    let mut prev_ws = true;
    let mut any_word = false;
    while i < v.len()
        invariant
            i <= v.len(),
            v@ == s@,
            r@ == collapse_ws(v@.take(i as int)),
            any_word == (words(v@.take(i as int)).len() > 0),
            prev_ws == (i == 0 || is_ws(v@[i - 1])),
        decreases v.len() - i,
    {
        let c = v[i];
        let ghost pre = v@.take(i as int);
        let ghost post = v@.take(i + 1);
        assert(post.drop_last() =~= pre);
        assert(post.last() == c);
        if is_whitespace(c) {
            prev_ws = true;
        } else {
            let ghost w = words(pre);
            if prev_ws {
                assert(words(post) == w.push(seq![c]));
                if any_word {
                    r.push(' ');
                }
                proof {
                    let w2 = w.push(seq![c]);
                    assert(w2.drop_last() =~= w);
                }
                r.push(c);
                assert(r@ =~= collapse_ws(post));
            } else {
                proof {
                    lemma_words_nonempty(pre);
                    let w2 = w.update(w.len() - 1, w.last().push(c));
                    assert(words(post) == w2);
                    assert(w2.drop_last() =~= w.drop_last());
                    assert(w2.last() == w.last().push(c));
                }
                r.push(c);
                assert(r@ =~= collapse_ws(post));
            }
            prev_ws = false;
            any_word = true;
        }
        i = i + 1;
    }
    assert(v@.take(v.len() as int) =~= v@);
    r
}

/// The views of a list of strings.
pub open spec fn views(v: Seq<String>) -> Seq<Seq<char>> {
    v.map_values(|p: String| p@)
}

/// The strings of `parts` joined with `sep` between neighbours
/// (`[&str]::join`).
pub fn join_strings(parts: &Vec<String>, sep: &str) -> (r: String)
    ensures
        r@ == join(views(parts@), sep@),
{
    let mut r = String::new();
    let ghost vs = views(parts@);
    let mut i: usize = 0;
    while i < parts.len()
        invariant
            i <= parts.len(),
            vs == views(parts@),
            r@ == join(vs.take(i as int), sep@),
        decreases parts.len() - i,
    {
        assert(vs.take(i + 1).drop_last() =~= vs.take(i as int));
        if i > 0 {
            r.append(sep);
        }
        r.append(parts[i].as_str());
        i = i + 1;
    }
    assert(vs.take(parts.len() as int) =~= vs);
    r
}

/// Whether two strings hold the same characters.
pub fn str_equals(a: &str, b: &str) -> (r: bool)
    ensures
        r == (a@ == b@),
{
    let va = chars_of(a);
    let vb = chars_of(b);
    if va.len() != vb.len() {
        return false;
    }
    let mut i: usize = 0;
    while i < va.len()
        invariant
            i <= va.len() == vb.len(),
            va@ == a@,
            vb@ == b@,
            forall|j: int| 0 <= j < i ==> va@[j] == vb@[j],
        decreases va.len() - i,
    {
        if va[i] != vb[i] {
            return false;
        }
        i = i + 1;
    }
    assert(va@ =~= vb@);
    true
}

/// Whether `s` holds an ASCII digit.
pub fn has_ascii_digit(s: &str) -> (r: bool)
    ensures
        r == exists|j: int| 0 <= j < s@.len() && is_ascii_digit(#[trigger] s@[j]),
{
    let v = chars_of(s);
    let mut i: usize = 0;
    while i < v.len()
        invariant
            i <= v.len(),
            v@ == s@,
            forall|j: int| 0 <= j < i ==> !is_ascii_digit(#[trigger] v@[j]),
        decreases v.len() - i,
    {
        if '0' <= v[i] && v[i] <= '9' {
            assert(is_ascii_digit(s@[i as int]));
            return true;
        }
        i = i + 1;
    }
    false
}

/// Number of bytes in the UTF-8 encoding of `c`.
pub open spec fn utf8_width(c: char) -> nat {
    let u = c as u32;
    if u <= 0x7f {
        1
    } else if u <= 0x7ff {
        2
    } else if u <= 0xffff {
        3
    } else {
        4
    }
}

/// Number of bytes in the UTF-8 encoding of `s` (what `str::len` returns).
pub open spec fn utf8_len(s: Seq<char>) -> nat
    decreases s.len(),
{
    if s.len() == 0 {
        0
    } else {
        utf8_len(s.drop_last()) + utf8_width(s.last())
    }
}

/// Whether the UTF-8 encoding of `s` is longer than `limit` bytes.
pub fn utf8_len_exceeds(s: &str, limit: usize) -> (r: bool)
    ensures
        r == (utf8_len(s@) > limit),
{
    let ghost full = s@;
    let mut total: usize = 0;
    for c in it: s.chars()
        invariant
            it.seq() == full,
            full == s@,
            total == utf8_len(full.take(it.index() as int)),
            total <= limit,
    {
        let ghost i = it.index();
        assert(full.take(i + 1).drop_last() =~= full.take(i as int));
        assert(full.take(i + 1).last() == c);
        let u = c as u32;
        let w: usize = if u <= 0x7f {
            1
        } else if u <= 0x7ff {
            2
        } else if u <= 0xffff {
            3
        } else {
            4
        };
        assert(w == utf8_width(c));
        assert(utf8_len(full.take(i + 1)) == total + w);
        if w > limit - total {
            proof {
                lemma_utf8_len_prefix_monotone(full, i + 1);
            }
            return true;
        }
        total = total + w;
    }
    assert(full.take(full.len() as int) =~= full);
    false
}

/// The byte length of a prefix never exceeds that of the whole text.
pub proof fn lemma_utf8_len_prefix_monotone(s: Seq<char>, n: int)
    requires
        0 <= n <= s.len(),
    ensures
        utf8_len(s.take(n)) <= utf8_len(s),
    decreases s.len() - n,
{
    if n < s.len() {
        lemma_utf8_len_prefix_monotone(s, n + 1);
        assert(s.take(n + 1).drop_last() =~= s.take(n));
    } else {
        assert(s.take(n) =~= s);
    }
}

/// What remains after stripping leading characters is a suffix of `s` that
/// is empty or starts with a character outside the class.
pub proof fn lemma_strip_leading_shape(s: Seq<char>, k: CharClass)
    ensures
        strip_leading(s, k).len() <= s.len(),
        strip_leading(s, k) == s.subrange(s.len() - strip_leading(s, k).len(), s.len() as int),
        strip_leading(s, k).len() == 0 || !in_class(k, strip_leading(s, k)[0]),
    decreases s.len(),
{
    if s.len() > 0 && in_class(k, s[0]) {
        lemma_strip_leading_shape(s.drop_first(), k);
        let r = strip_leading(s.drop_first(), k);
        assert(s.drop_first().subrange(s.len() - 1 - r.len(), s.len() - 1) =~= s.subrange(
            s.len() - r.len(),
            s.len() as int,
        ));
    } else {
        assert(s.subrange(0, s.len() as int) =~= s);
    }
}

/// What remains after stripping trailing characters is a prefix of `s` that
/// is empty or ends with a character outside the class.
pub proof fn lemma_strip_trailing_shape(s: Seq<char>, k: CharClass)
    ensures
        strip_trailing(s, k).len() <= s.len(),
        strip_trailing(s, k) == s.take(strip_trailing(s, k).len() as int),
        strip_trailing(s, k).len() == 0 || !in_class(k, strip_trailing(s, k).last()),
    decreases s.len(),
{
    if s.len() > 0 && in_class(k, s.last()) {
        lemma_strip_trailing_shape(s.drop_last(), k);
        let r = strip_trailing(s.drop_last(), k);
        assert(s.drop_last().take(r.len() as int) =~= s.take(r.len() as int));
    } else {
        assert(s.take(s.len() as int) =~= s);
    }
}

/// Stripping both ends leaves a text that is empty or starts and ends
/// outside the class.
pub proof fn lemma_strip_both_shape(s: Seq<char>, k: CharClass)
    ensures
        strip_both(s, k).len() == 0 || (!in_class(k, strip_both(s, k)[0]) && !in_class(
            k,
            strip_both(s, k).last(),
        )),
{
    let l = strip_leading(s, k);
    lemma_strip_leading_shape(s, k);
    lemma_strip_trailing_shape(l, k);
    let t = strip_trailing(l, k);
    if t.len() > 0 {
        assert(t[0] == l[0]);
    }
}

/// Stripping both ends of a text that starts and ends outside the class
/// changes nothing.
pub proof fn lemma_strip_both_noop(s: Seq<char>, k: CharClass)
    requires
        s.len() == 0 || (!in_class(k, s[0]) && !in_class(k, s.last())),
    ensures
        strip_both(s, k) == s,
{
}

/// Trimming twice is trimming once.
pub proof fn lemma_trim_idempotent(s: Seq<char>)
    ensures
        trim(trim(s)) == trim(s),
{
    lemma_strip_both_shape(s, CharClass::Whitespace);
    lemma_strip_both_noop(trim(s), CharClass::Whitespace);
}

/// A word: non-empty and free of white space.
pub open spec fn is_word(w: Seq<char>) -> bool {
    w.len() > 0 && forall|j: int| 0 <= j < w.len() ==> !is_ws(#[trigger] w[j])
}

/// Every piece that `words` yields is a word.
pub proof fn lemma_words_are_words(s: Seq<char>)
    ensures
        forall|k: int| 0 <= k < words(s).len() ==> is_word(#[trigger] words(s)[k]),
    decreases s.len(),
{
    if s.len() > 0 {
        lemma_words_are_words(s.drop_last());
        let w = words(s.drop_last());
        let c = s.last();
        if !is_ws(c) {
            if s.len() >= 2 && !is_ws(s[s.len() - 2]) {
                lemma_words_nonempty(s.drop_last());
                let nw = w.last().push(c);
                assert(is_word(w[w.len() - 1]));
                assert(is_word(nw));
            } else {
                assert(is_word(seq![c]));
            }
        }
    }
}

/// The words of a single word are that word.
pub proof fn lemma_words_of_word(w: Seq<char>)
    requires
        is_word(w),
    ensures
        words(w) == seq![w],
    decreases w.len(),
{
    assert(!is_ws(w[w.len() - 1]));
    if w.len() == 1 {
        assert(w.drop_last() =~= Seq::<char>::empty());
        assert(words(w.drop_last()) == Seq::<Seq<char>>::empty());
        assert(w =~= seq![w[0]]);
        assert(words(w) == Seq::<Seq<char>>::empty().push(seq![w[0]]));
        assert(Seq::<Seq<char>>::empty().push(seq![w[0]]) =~= seq![w]);
    } else {
        let p = w.drop_last();
        assert(is_word(p));
        lemma_words_of_word(p);
        assert(p.push(w.last()) =~= w);
        assert(w[w.len() - 2] == p.last());
        assert(!is_ws(w[w.len() - 2]));
        assert(seq![p].update(0, p.push(w.last())) =~= seq![w]);
    }
}

/// Appending a space and a word appends that word.
pub proof fn lemma_words_append_word(x: Seq<char>, w: Seq<char>)
    requires
        is_word(w),
    ensures
        words(x + seq![' '] + w) == words(x).push(w),
    decreases w.len(),
{
    let s = x + seq![' '] + w;
    assert(!is_ws(w[w.len() - 1]));
    assert(s.last() == w.last());
    if w.len() == 1 {
        assert(s.drop_last() =~= x.push(' '));
        assert(x.push(' ').drop_last() =~= x);
        assert(is_ws(' '));
        assert(words(x.push(' ')) == words(x));
        assert(s[s.len() - 2] == ' ');
        assert(w =~= seq![w[0]]);
        assert(words(s) == words(x).push(seq![w.last()]));
    } else {
        let p = w.drop_last();
        assert(is_word(p));
        lemma_words_append_word(x, p);
        assert(s.drop_last() =~= x + seq![' '] + p);
        assert(s[s.len() - 2] == p.last());
        assert(!is_ws(p.last()));
        assert(p.push(w.last()) =~= w);
        assert(words(x).push(p).update(words(x).len() as int, w) =~= words(x).push(w));
    }
}

/// Joining words with single spaces and splitting again gives the words back.
pub proof fn lemma_words_of_join(ws: Seq<Seq<char>>)
    requires
        forall|k: int| 0 <= k < ws.len() ==> is_word(#[trigger] ws[k]),
    ensures
        words(join(ws, seq![' '])) == ws,
    decreases ws.len(),
{
    if ws.len() == 0 {
    } else if ws.len() == 1 {
        assert(is_word(ws[0]));
        lemma_words_of_word(ws[0]);
        assert(ws =~= seq![ws[0]]);
    } else {
        let init = ws.drop_last();
        assert forall|k: int| 0 <= k < init.len() implies is_word(#[trigger] init[k]) by {
            assert(is_word(ws[k]));
        }
        lemma_words_of_join(init);
        assert(is_word(ws[ws.len() - 1]));
        lemma_words_append_word(join(init, seq![' ']), ws.last());
        assert(init.push(ws.last()) =~= ws);
    }
}

/// Words joined with single spaces start and end with a word character.
pub proof fn lemma_join_ends(ws: Seq<Seq<char>>)
    requires
        ws.len() > 0,
        forall|k: int| 0 <= k < ws.len() ==> is_word(#[trigger] ws[k]),
    ensures
        join(ws, seq![' ']).len() > 0,
        !is_ws(join(ws, seq![' '])[0]),
        !is_ws(join(ws, seq![' ']).last()),
    decreases ws.len(),
{
    assert(is_word(ws[0]));
    assert(is_word(ws[ws.len() - 1]));
    if ws.len() > 1 {
        let init = ws.drop_last();
        assert forall|k: int| 0 <= k < init.len() implies is_word(#[trigger] init[k]) by {
            assert(is_word(ws[k]));
        }
        lemma_join_ends(init);
        let j = join(init, seq![' ']);
        assert((j + seq![' '] + ws.last())[0] == j[0]);
        let l = ws.last();
        assert((j + seq![' '] + l).last() == l[l.len() - 1]);
    }
}

/// Normalizing white space twice is normalizing it once.
pub proof fn lemma_collapse_trim_idempotent(s: Seq<char>)
    ensures
        collapse_ws(trim(collapse_ws(trim(s)))) == collapse_ws(trim(s)),
{
    let ws = words(trim(s));
    lemma_words_are_words(trim(s));
    let f = join(ws, seq![' ']);
    if ws.len() > 0 {
        lemma_join_ends(ws);
    }
    lemma_strip_both_noop(f, CharClass::Whitespace);
    lemma_words_of_join(ws);
}

/// The byte count of a text starting with `c`.
proof fn lemma_utf8_len_cons(c: char, rest: Seq<char>)
    ensures
        utf8_len(seq![c] + rest) == utf8_width(c) + utf8_len(rest),
    decreases rest.len(),
{
    let whole = seq![c] + rest;
    if rest.len() == 0 {
        assert(whole =~= seq![c]);
        assert(whole.drop_last() =~= Seq::<char>::empty());
        assert(utf8_len(Seq::<char>::empty()) == 0);
        assert(whole.last() == c);
    } else {
        lemma_utf8_len_cons(c, rest.drop_last());
        assert(whole.drop_last() =~= seq![c] + rest.drop_last());
        assert(whole.last() == rest.last());
    }
}

/// [`utf8_len`] is the length of vstd's UTF-8 encoding of the text, which is
/// what `str::len` is specified to return.
pub proof fn lemma_utf8_len_is_encoded_len(s: Seq<char>)
    ensures
        utf8_len(s) == vstd::utf8::encode_utf8(s).len(),
    decreases s.len(),
{
    if s.len() > 0 {
        lemma_utf8_len_is_encoded_len(s.drop_first());
        lemma_utf8_len_cons(s[0], s.drop_first());
        assert(seq![s[0]] + s.drop_first() =~= s);
        let c = s[0];
        vstd::utf8::char_is_scalar(c);
        let u = c as u32;
        assert(vstd::utf8::is_scalar(u));
        if u <= 0x7f {
            assert(vstd::utf8::has_width_1_encoding(u));
        } else if u <= 0x7ff {
            assert(vstd::utf8::has_width_2_encoding(u));
        } else if u <= 0xffff {
            assert(!vstd::utf8::has_width_1_encoding(u) && !vstd::utf8::has_width_2_encoding(u));
            assert(vstd::utf8::has_width_3_encoding(u));
        } else {
            assert(vstd::utf8::has_width_4_encoding(u));
        }
        assert(vstd::utf8::encode_scalar(u).len() == utf8_width(c));
        assert(vstd::utf8::encode_utf8(s) == vstd::utf8::encode_scalar(u) + vstd::utf8::encode_utf8(
            s.drop_first(),
        ));
    }
}

} // verus!
