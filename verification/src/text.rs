//! Text helpers shared by the validators and the message handling:
//! whitespace trimming, concatenation and lossy UTF-8 decoding.

use vstd::prelude::*;
use vstd::utf8::*;

verus! {

/// A character with the Unicode `White_Space` property, the set that
/// `char::is_whitespace` and therefore `str::trim` use.
pub open spec fn is_white_space(c: char) -> bool {
    ||| ('\u{9}' <= c && c <= '\u{d}')
    ||| c == ' '
    ||| c == '\u{85}'
    ||| c == '\u{a0}'
    ||| c == '\u{1680}'
    ||| ('\u{2000}' <= c && c <= '\u{200a}')
    ||| c == '\u{2028}'
    ||| c == '\u{2029}'
    ||| c == '\u{202f}'
    ||| c == '\u{205f}'
    ||| c == '\u{3000}'
}

/// The text with its leading whitespace removed.
pub open spec fn trimmed_start(s: Seq<char>) -> Seq<char>
    decreases s.len(),
{
    if s.len() > 0 && is_white_space(s[0]) {
        trimmed_start(s.drop_first())
    } else {
        s
    }
}

/// The text with its trailing whitespace removed.
pub open spec fn trimmed_end(s: Seq<char>) -> Seq<char>
    decreases s.len(),
{
    if s.len() > 0 && is_white_space(s.last()) {
        trimmed_end(s.drop_last())
    } else {
        s
    }
}

/// The text with leading and trailing whitespace removed, as `str::trim` does.
pub open spec fn trimmed(s: Seq<char>) -> Seq<char> {
    trimmed_end(trimmed_start(s))
}

/// Whether `c` is whitespace in the sense of `char::is_whitespace`.
pub fn is_white_space_char(c: char) -> (r: bool)
    ensures
        r == is_white_space(c),
{
    ('\u{9}' <= c && c <= '\u{d}') || c == ' ' || c == '\u{85}' || c == '\u{a0}' || c == '\u{1680}'
        || ('\u{2000}' <= c && c <= '\u{200a}') || c == '\u{2028}' || c == '\u{2029}' || c
        == '\u{202f}' || c == '\u{205f}' || c == '\u{3000}'
}

/// Returns `s` without its leading and trailing whitespace.
pub fn trim(s: &str) -> (r: &str)
    ensures
        r@ == trimmed(s@),
{
    let n: usize = s.unicode_len();
    let mut i: usize = 0;
    assert(s@.subrange(0, n as int) =~= s@);
    while i < n && is_white_space_char(s.get_char(i))
        invariant
            n == s@.len(),
            i <= n,
            trimmed_start(s@) == trimmed_start(s@.subrange(i as int, n as int)),
        decreases n - i,
    {
        assert(s@.subrange(i as int, n as int).drop_first() =~= s@.subrange(i + 1, n as int));
        i = i + 1;
    }
    proof {
        let rest = s@.subrange(i as int, n as int);
        if i < n {
            assert(rest[0] == s@[i as int]);
        }
        assert(trimmed_start(s@) == rest);
    }
    let mut j: usize = n;
    while j > i && is_white_space_char(s.get_char(j - 1))
        invariant
            n == s@.len(),
            i <= j <= n,
            trimmed_start(s@) == s@.subrange(i as int, n as int),
            trimmed_end(s@.subrange(i as int, n as int)) == trimmed_end(
                s@.subrange(i as int, j as int),
            ),
        decreases j,
    {
        assert(s@.subrange(i as int, j as int).drop_last() =~= s@.subrange(i as int, j - 1));
        j = j - 1;
    }
    proof {
        let kept = s@.subrange(i as int, j as int);
        if j > i {
            assert(kept.last() == s@[j - 1]);
        }
        assert(trimmed_end(kept) == kept);
    }
    s.substring_char(i, j)
}

/// Whether the two texts hold the same characters.
pub fn same_text(a: &str, b: &str) -> (r: bool)
    ensures
        r == (a@ == b@),
{
    let n: usize = a.unicode_len();
    if n != b.unicode_len() {
        return false;
    }
    let mut i: usize = 0;
    while i < n
        invariant
            n == a@.len(),
            n == b@.len(),
            i <= n,
            forall|k: int| 0 <= k < i ==> a@[k] == b@[k],
        decreases n - i,
    {
        if a.get_char(i) != b.get_char(i) {
            return false;
        }
        i = i + 1;
    }
    assert(a@ =~= b@);
    true
}

/// The text `a` followed by the text `b`.
pub fn join_text(a: &str, b: &str) -> (r: String)
    ensures
        r@ == a@ + b@,
{
    let mut r = String::from_str(a);
    r.append(b);
    r
}

/// What `String::from_utf8_lossy` gives for `bytes`: the decoded text, with
/// every ill-formed sequence replaced by U+FFFD.
pub uninterp spec fn utf8_lossy(bytes: Seq<u8>) -> Seq<char>;

/// Calls `String::from_utf8_lossy`. Claimed: the result is named by
/// `utf8_lossy` of the bytes, and on well-formed UTF-8 it is the decoded text
/// (std documents that valid input is returned unchanged). What replacement
/// characters appear for ill-formed input is left unsaid.
#[verifier::external_body]
pub(crate) fn decode_lossy(bytes: &[u8]) -> (r: String)
    ensures
        r@ == utf8_lossy(bytes@),
        valid_utf8(bytes@) ==> r@ == decode_utf8(bytes@),
{
    String::from_utf8_lossy(bytes).into_owned()
}

} // verus!

verus! {

/// Removing leading whitespace leaves a suffix that is empty or starts with
/// a non-whitespace character.
proof fn lemma_trimmed_start_shape(s: Seq<char>)
    ensures
        trimmed_start(s).len() <= s.len(),
        trimmed_start(s) == s.subrange(s.len() - trimmed_start(s).len(), s.len() as int),
        trimmed_start(s).len() > 0 ==> !is_white_space(trimmed_start(s)[0]),
    decreases s.len(),
{
    if s.len() > 0 && is_white_space(s[0]) {
        lemma_trimmed_start_shape(s.drop_first());
        let r = trimmed_start(s.drop_first());
        assert(s.drop_first().subrange(s.len() - 1 - r.len(), s.len() - 1) =~= s.subrange(
            s.len() - r.len(),
            s.len() as int,
        ));
    } else {
        assert(s.subrange(0, s.len() as int) =~= s);
    }
}

/// Removing trailing whitespace leaves a prefix that is empty or ends with a
/// non-whitespace character.
proof fn lemma_trimmed_end_shape(s: Seq<char>)
    ensures
        trimmed_end(s).len() <= s.len(),
        trimmed_end(s) == s.subrange(0, trimmed_end(s).len() as int),
        trimmed_end(s).len() > 0 ==> !is_white_space(trimmed_end(s).last()),
    decreases s.len(),
{
    if s.len() > 0 && is_white_space(s.last()) {
        lemma_trimmed_end_shape(s.drop_last());
        let r = trimmed_end(s.drop_last());
        assert(s.drop_last().subrange(0, r.len() as int) =~= s.subrange(0, r.len() as int));
    } else {
        assert(s.subrange(0, s.len() as int) =~= s);
    }
}

/// Trimming twice is trimming once: a trimmed text has no whitespace left
/// at either end.
pub proof fn lemma_trim_idempotent(s: Seq<char>)
    ensures
        trimmed(trimmed(s)) == trimmed(s),
        trimmed(s).len() > 0 ==> !is_white_space(trimmed(s)[0]) && !is_white_space(
            trimmed(s).last(),
        ),
{
    let a = trimmed_start(s);
    lemma_trimmed_start_shape(s);
    lemma_trimmed_end_shape(a);
    let b = trimmed_end(a);
    if b.len() > 0 {
        assert(b[0] == a[0]);
    }
    assert(trimmed_start(b) == b);
    lemma_trimmed_end_shape(b);
    assert(trimmed_end(b) == b);
}

/// Leading whitespace is dropped by trimming the start.
proof fn lemma_trimmed_start_prefix(w: Seq<char>, s: Seq<char>)
    requires
        forall|i: int| 0 <= i < w.len() ==> is_white_space(#[trigger] w[i]),
    ensures
        trimmed_start(w + s) == trimmed_start(s),
    decreases w.len(),
{
    if w.len() == 0 {
        assert(w + s =~= s);
    } else {
        assert((w + s)[0] == w[0]);
        assert((w + s).drop_first() =~= w.drop_first() + s);
        lemma_trimmed_start_prefix(w.drop_first(), s);
    }
}

/// Trailing whitespace is dropped by trimming the end.
proof fn lemma_trimmed_end_suffix(s: Seq<char>, w: Seq<char>)
    requires
        forall|i: int| 0 <= i < w.len() ==> is_white_space(#[trigger] w[i]),
    ensures
        trimmed_end(s + w) == trimmed_end(s),
    decreases w.len(),
{
    if w.len() == 0 {
        assert(s + w =~= s);
    } else {
        assert((s + w).last() == w.last());
        assert((s + w).drop_last() =~= s + w.drop_last());
        lemma_trimmed_end_suffix(s, w.drop_last());
    }
}

/// Trimming the start of a text followed by more text, when the first text
/// has a non-whitespace character.
proof fn lemma_trimmed_start_append(s: Seq<char>, t: Seq<char>)
    requires
        trimmed_start(s).len() > 0,
    ensures
        trimmed_start(s + t) == trimmed_start(s) + t,
    decreases s.len(),
{
    if s.len() > 0 && is_white_space(s[0]) {
        assert((s + t)[0] == s[0]);
        assert((s + t).drop_first() =~= s.drop_first() + t);
        lemma_trimmed_start_append(s.drop_first(), t);
    } else {
        assert(s.len() > 0);
        assert((s + t)[0] == s[0]);
    }
}

/// Trimming ignores whitespace added before and after a text.
pub proof fn lemma_trim_ignores_padding(before: Seq<char>, s: Seq<char>, after: Seq<char>)
    requires
        forall|i: int| 0 <= i < before.len() ==> is_white_space(#[trigger] before[i]),
        forall|i: int| 0 <= i < after.len() ==> is_white_space(#[trigger] after[i]),
    ensures
        trimmed(before + s + after) == trimmed(s),
{
    assert(before + s + after =~= before + (s + after));
    lemma_trimmed_start_prefix(before, s + after);
    if trimmed_start(s).len() > 0 {
        lemma_trimmed_start_append(s, after);
        lemma_trimmed_end_suffix(trimmed_start(s), after);
    } else {
        lemma_trimmed_start_shape(s);
        assert forall|i: int| 0 <= i < s.len() implies is_white_space(#[trigger] s[i]) by {
            lemma_all_white_space_when_trimmed_empty(s, i);
        }
        assert(s + after =~= s + after + Seq::<char>::empty());
        lemma_trimmed_start_prefix(s + after, Seq::<char>::empty());
        assert forall|i: int| 0 <= i < (s + after).len() implies is_white_space(
            #[trigger] (s + after)[i],
        ) by {
            if i < s.len() {
                assert((s + after)[i] == s[i]);
            } else {
                assert((s + after)[i] == after[i - s.len()]);
            }
        }
        assert(trimmed_start(Seq::<char>::empty()) == Seq::<char>::empty());
    }
}

/// A text whose leading-whitespace trim is empty is all whitespace.
proof fn lemma_all_white_space_when_trimmed_empty(s: Seq<char>, i: int)
    requires
        trimmed_start(s).len() == 0,
        0 <= i < s.len(),
    ensures
        is_white_space(s[i]),
    decreases s.len(),
{
    if s.len() > 0 && is_white_space(s[0]) {
        if i > 0 {
            lemma_all_white_space_when_trimmed_empty(s.drop_first(), i - 1);
        }
    }
}

/// Space, tab, line feed, vertical tab, form feed and carriage return are
/// whitespace; ASCII letters and digits are not.
pub proof fn lemma_ascii_white_space(c: char)
    ensures
        (c == ' ' || ('\t' <= c && c <= '\r')) ==> is_white_space(c),
        (('a' <= c && c <= 'z') || ('A' <= c && c <= 'Z') || ('0' <= c && c <= '9'))
            ==> !is_white_space(c),
{
}

} // verus!
