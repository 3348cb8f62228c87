//! Characters and strings: white space, trimming, comparison and splitting,
//! all stated over the `Seq<char>` view of the text; and byte positions in
//! a string's UTF-8 encoding, as `str::len` and string indices count them.
use vstd::prelude::*;
use vstd::utf8::{encode_scalar, encode_utf8};

verus! {

/// Unicode white space, as `char::is_whitespace` defines it (the
/// `White_Space` property).
pub open spec fn is_ws(c: char) -> bool {
    ||| ('\u{9}' <= c && c <= '\u{d}')
    ||| c == ' '
    ||| c == '\u{85}'
    ||| c == '\u{a0}'
    ||| c == '\u{1680}'
    ||| ('\u{2000}' <= c && c <= '\u{200a}')
    ||| c == '\u{2028}'
    ||| c == '\u{2029}'
    ||| c == '\u{202f}'
    ||| c == '\u{205f}'
    ||| c == '\u{3000}'
}

/// Whether `c` is white space.
pub fn is_whitespace(c: char) -> (r: bool)
    ensures
        r == is_ws(c),
{
    ('\u{9}' <= c && c <= '\u{d}') || c == ' ' || c == '\u{85}' || c == '\u{a0}' || c
        == '\u{1680}' || ('\u{2000}' <= c && c <= '\u{200a}') || c == '\u{2028}' || c
        == '\u{2029}' || c == '\u{202f}' || c == '\u{205f}' || c == '\u{3000}'
}

/// Whether any character of `s` is white space.
pub open spec fn has_ws(s: Seq<char>) -> bool {
    exists|i: int| 0 <= i < s.len() && #[trigger] is_ws(s[i])
}

/// `s` without its leading white space.
pub open spec fn trim_start(s: Seq<char>) -> Seq<char>
    decreases s.len(),
{
    if s.len() > 0 && is_ws(s[0]) {
        trim_start(s.drop_first())
    } else {
        s
    }
}

/// `s` without its trailing white space.
pub open spec fn trim_end(s: Seq<char>) -> Seq<char>
    decreases s.len(),
{
    if s.len() > 0 && is_ws(s.last()) {
        trim_end(s.drop_last())
    } else {
        s
    }
}

/// `s` without white space at either end, as `str::trim` gives it.
pub open spec fn trim(s: Seq<char>) -> Seq<char> {
    trim_end(trim_start(s))
}

proof fn lemma_trim_start(s: Seq<char>)
    ensures
        exists|i: int| 0 <= i <= s.len() && trim_start(s) == s.subrange(i, s.len() as int) && (forall|k: int|
            0 <= k < i ==> #[trigger] is_ws(s[k])),
        trim_start(s).len() > 0 ==> !is_ws(trim_start(s)[0]),
    decreases s.len(),
{
    if s.len() > 0 && is_ws(s[0]) {
        let t = s.drop_first();
        lemma_trim_start(t);
        let i = choose|i: int| 0 <= i <= t.len() && trim_start(t) == t.subrange(i, t.len() as int) && (forall|k: int|
            0 <= k < i ==> #[trigger] is_ws(t[k]));
        assert(t.subrange(i, t.len() as int) =~= s.subrange(i + 1, s.len() as int));
        assert forall|k: int| 0 <= k < i + 1 implies #[trigger] is_ws(s[k]) by {
            if k > 0 {
                assert(s[k] == t[k - 1]);
            }
        }
    } else {
        assert(s.subrange(0, s.len() as int) =~= s);
    }
}

proof fn lemma_trim_end(s: Seq<char>)
    ensures
        exists|j: int| 0 <= j <= s.len() && trim_end(s) == s.subrange(0, j) && (forall|k: int|
            j <= k < s.len() ==> #[trigger] is_ws(s[k])),
        trim_end(s).len() > 0 ==> !is_ws(trim_end(s).last()),
    decreases s.len(),
{
    if s.len() > 0 && is_ws(s.last()) {
        let t = s.drop_last();
        lemma_trim_end(t);
        let j = choose|j: int| 0 <= j <= t.len() && trim_end(t) == t.subrange(0, j) && (forall|k: int|
            j <= k < t.len() ==> #[trigger] is_ws(t[k]));
        assert(t.subrange(0, j) =~= s.subrange(0, j));
        assert forall|k: int| j <= k < s.len() implies #[trigger] is_ws(s[k]) by {
            if k < s.len() - 1 {
                assert(s[k] == t[k]);
            }
        }
    } else {
        assert(s.subrange(0, s.len() as int) =~= s);
    }
}

/// Trimming drops exactly the white space at either end: what is left is
/// a stretch of `s` that neither starts nor ends with white space, and
/// everything before and after it is white space.
pub proof fn lemma_trim(s: Seq<char>)
    ensures
        exists|i: int, j: int|
            0 <= i <= j <= s.len() && trim(s) == s.subrange(i, j) && (forall|k: int| 0 <= k < i ==> #[trigger] is_ws(s[k]))
                && (forall|k: int| j <= k < s.len() ==> #[trigger] is_ws(s[k])),
        trim(s).len() > 0 ==> !is_ws(trim(s)[0]) && !is_ws(trim(s).last()),
{
    lemma_trim_start(s);
    let t = trim_start(s);
    let i = choose|i: int| 0 <= i <= s.len() && t == s.subrange(i, s.len() as int) && (forall|k: int|
        0 <= k < i ==> #[trigger] is_ws(s[k]));
    lemma_trim_end(t);
    let j = choose|j: int| 0 <= j <= t.len() && trim_end(t) == t.subrange(0, j) && (forall|k: int|
        j <= k < t.len() ==> #[trigger] is_ws(t[k]));
    assert(t.subrange(0, j) =~= s.subrange(i, i + j));
    assert forall|k: int| i + j <= k < s.len() implies #[trigger] is_ws(s[k]) by {
        assert(s[k] == t[k - i]);
    }
    if trim(s).len() > 0 {
        assert(trim(s)[0] == t[0]);
    }
}

/// The characters of `s`, in order.
pub fn chars_of(s: &str) -> (v: Vec<char>)
    ensures
        v@ == s@,
{
    let mut v: Vec<char> = Vec::new();
    for c in it: s.chars()
        invariant
            v@ == it.seq().take(it.index() as int),
    {
        v.push(c);
    }
    v
}

/// How many UTF-8 bytes `s` takes, as `str::len` counts them.
pub open spec fn utf8_len(s: Seq<char>) -> int {
    encode_utf8(s).len() as int
}

/// The byte position of character `k` of `s`: the UTF-8 length of the
/// characters before it.
pub open spec fn byte_pos(s: Seq<char>, k: int) -> int {
    utf8_len(s.take(k))
}

/// How many whole characters of `s` lie within its first `b` bytes: the
/// character at byte position `b`, or the one whose encoding `b` falls in.
pub open spec fn chars_within(s: Seq<char>, b: int) -> int
    decreases s.len(),
{
    if s.len() == 0 {
        0
    } else if utf8_len(s) <= b {
        s.len() as int
    } else {
        chars_within(s.drop_last(), b)
    }
}

/// One more character adds its own encoding's bytes, one to four.
pub proof fn lemma_utf8_push(s: Seq<char>, c: char)
    ensures
        utf8_len(s.push(c)) == utf8_len(s) + encode_scalar(c as u32).len(),
        1 <= encode_scalar(c as u32).len() <= 4,
    decreases s.len(),
{
    if s.len() == 0 {
        assert(s.push(c).drop_first() =~= Seq::<char>::empty());
        assert(encode_utf8(Seq::<char>::empty()) =~= Seq::<u8>::empty());
    } else {
        assert(s.push(c).drop_first() =~= s.drop_first().push(c));
        lemma_utf8_push(s.drop_first(), c);
    }
}

/// A prefix takes no more bytes than the whole.
pub proof fn lemma_utf8_prefix(s: Seq<char>, k: int)
    requires
        0 <= k <= s.len(),
    ensures
        0 <= byte_pos(s, k) <= utf8_len(s),
    decreases s.len() - k,
{
    if k < s.len() {
        assert(s.take(k + 1) =~= s.take(k).push(s[k]));
        lemma_utf8_push(s.take(k), s[k]);
        lemma_utf8_prefix(s, k + 1);
    } else {
        assert(s.take(k) =~= s);
    }
}

proof fn lemma_chars_within_range(s: Seq<char>, b: int)
    ensures
        0 <= chars_within(s, b) <= s.len(),
    decreases s.len(),
{
    if s.len() > 0 {
        lemma_chars_within_range(s.drop_last(), b);
    }
}

/// A string's UTF-8 length fits in `usize`.
pub fn utf8_fits(t: &str)
    ensures
        utf8_len(t@) <= usize::MAX,
{
    let b = t.as_bytes();
    let _n = b.len();
}

/// The byte position of character `k` of `t`.
pub fn byte_position(t: &str, k: usize) -> (r: usize)
    requires
        k <= t@.len(),
    ensures
        r == byte_pos(t@, k as int),
{
    utf8_fits(t);
    proof {
        lemma_utf8_prefix(t@, k as int);
    }
    let prefix = t.substring_char(0, k);
    assert(prefix@ =~= t@.take(k as int));
    prefix.len()
}

/// How many whole characters of `t` lie within its first `b` bytes.
pub fn chars_within_bytes(t: &str, b: usize) -> (r: usize)
    ensures
        r == chars_within(t@, b as int),
        r <= t@.len(),
{
    let n = t.unicode_len();
    let mut k = n;
    proof {
        assert(t@.take(n as int) =~= t@);
        lemma_chars_within_range(t@, b as int);
    }
    while k > 0
        invariant
            k <= t@.len(),
            chars_within(t@.take(k as int), b as int) == chars_within(t@, b as int),
        decreases k,
    {
        let at = byte_position(t, k);
        if at <= b {
            return k;
        }
        assert(t@.take(k as int).drop_last() =~= t@.take(k - 1));
        k = k - 1;
    }
    0
}

/// `String::from_iter` over the characters `v`: trusted to give the string
/// holding exactly those characters, in order.
#[verifier::external_body]
pub(crate) fn string_of(v: &[char]) -> (s: String)
    ensures
        s@ == v@,
{
    v.iter().collect::<String>()
}

/// Whether two character sequences are the same.
pub fn chars_eq(a: &[char], b: &[char]) -> (r: bool)
    ensures
        r == (a@ == b@),
{
    if a.len() != b.len() {
        return false;
    }
    let mut i: usize = 0;
    while i < a.len()
        invariant
            a.len() == b.len(),
            i <= a.len(),
            forall|j: int| 0 <= j < i ==> a@[j] == b@[j],
        decreases a.len() - i,
    {
        if a[i] != b[i] {
            return false;
        }
        i = i + 1;
    }
    assert(a@ =~= b@);
    true
}

/// Whether `s` is exactly `lit`.
pub fn str_is(s: &str, lit: &str) -> (r: bool)
    ensures
        r == (s@ == lit@),
{
    let a = chars_of(s);
    let b = chars_of(lit);
    chars_eq(a.as_slice(), b.as_slice())
}

/// Whether `s` begins with `p`.
pub open spec fn has_prefix(s: Seq<char>, p: Seq<char>) -> bool {
    p.len() <= s.len() && s.subrange(0, p.len() as int) == p
}

/// Whether `s` begins with `prefix`.
pub fn chars_start_with(s: &[char], prefix: &[char]) -> (r: bool)
    ensures
        r == (prefix@.len() <= s@.len() && s@.subrange(0, prefix@.len() as int) == prefix@),
{
    if prefix.len() > s.len() {
        return false;
    }
    let mut i: usize = 0;
    while i < prefix.len()
        invariant
            prefix.len() <= s.len(),
            i <= prefix.len(),
            forall|j: int| 0 <= j < i ==> s@[j] == prefix@[j],
        decreases prefix.len() - i,
    {
        if s[i] != prefix[i] {
            assert(s@.subrange(0, prefix@.len() as int)[i as int] != prefix@[i as int]);
            return false;
        }
        i = i + 1;
    }
    assert(s@.subrange(0, prefix@.len() as int) =~= prefix@);
    true
}

/// Whether `s` begins with `prefix`.
pub fn str_starts_with(s: &str, prefix: &str) -> (r: bool)
    ensures
        r == has_prefix(s@, prefix@),
{
    let a = chars_of(s);
    let b = chars_of(prefix);
    chars_start_with(a.as_slice(), b.as_slice())
}

/// Whether any character of `s` is white space.
pub fn any_whitespace(s: &[char]) -> (r: bool)
    ensures
        r == has_ws(s@),
{
    let mut i: usize = 0;
    while i < s.len()
        invariant
            i <= s.len(),
            forall|j: int| 0 <= j < i ==> !is_ws(s@[j]),
        decreases s.len() - i,
    {
        if is_whitespace(s[i]) {
            return true;
        }
        i = i + 1;
    }
    false
}

proof fn lemma_trim_start_skip(s: Seq<char>, i: int)
    requires
        0 <= i <= s.len(),
        forall|j: int| 0 <= j < i ==> is_ws(s[j]),
    ensures
        trim_start(s) == trim_start(s.subrange(i, s.len() as int)),
    decreases i,
{
    if i > 0 {
        assert(s.drop_first() =~= s.subrange(1, s.len() as int));
        lemma_trim_start_skip(s.drop_first(), i - 1);
        assert(s.drop_first().subrange(i - 1, s.drop_first().len() as int) =~= s.subrange(
            i,
            s.len() as int,
        ));
    } else {
        assert(s.subrange(0, s.len() as int) =~= s);
    }
}

proof fn lemma_trim_end_skip(s: Seq<char>, k: int)
    requires
        0 <= k <= s.len(),
        forall|j: int| k <= j < s.len() ==> is_ws(s[j]),
    ensures
        trim_end(s) == trim_end(s.subrange(0, k)),
    decreases s.len() - k,
{
    if k < s.len() {
        assert(s.drop_last() =~= s.subrange(0, s.len() - 1));
        lemma_trim_end_skip(s.drop_last(), k);
        assert(s.drop_last().subrange(0, k) =~= s.subrange(0, k));
    } else {
        assert(s.subrange(0, k) =~= s);
    }
}

/// The characters of `s` with white space taken off both ends.
pub fn trim_chars(s: &[char]) -> (r: Vec<char>)
    ensures
        r@ == trim(s@),
{
    let mut i: usize = 0;
    while i < s.len() && is_whitespace(s[i])
        invariant
            i <= s.len(),
            forall|j: int| 0 <= j < i ==> is_ws(s@[j]),
        decreases s.len() - i,
    {
        i = i + 1;
    }
    proof {
        lemma_trim_start_skip(s@, i as int);
    }
    let ghost mid = s@.subrange(i as int, s@.len() as int);
    assert(mid.len() == 0 || !is_ws(mid[0]));
    assert(trim_start(mid) == mid);
    let mut k: usize = s.len();
    while k > i && is_whitespace(s[k - 1])
        invariant
            i <= k <= s.len(),
            forall|j: int| k <= j < s.len() ==> is_ws(s@[j]),
        decreases k,
    {
        k = k - 1;
    }
    proof {
        assert forall|j: int| k - i <= j < mid.len() implies is_ws(mid[j]) by {
            assert(mid[j] == s@[j + i]);
        }
        lemma_trim_end_skip(mid, k - i);
        let head = mid.subrange(0, k - i);
        assert(head =~= s@.subrange(i as int, k as int));
        assert(head.len() == 0 || !is_ws(head.last()));
    }
    let mut r: Vec<char> = Vec::new();
    let mut p: usize = i;
    while p < k
        invariant
            i <= p <= k <= s.len(),
            r@ == s@.subrange(i as int, p as int),
        decreases k - p,
    {
        r.push(s[p]);
        p = p + 1;
        assert(r@ =~= s@.subrange(i as int, p as int));
    }
    r
}

/// `s` with white space taken off both ends.
pub fn trim_str(s: &str) -> (r: Vec<char>)
    ensures
        r@ == trim(s@),
{
    let v = chars_of(s);
    trim_chars(v.as_slice())
}

/// The pieces of `s` between occurrences of `sep`, as `str::split` gives
/// them for a single-character separator.
pub open spec fn split_on(s: Seq<char>, sep: char) -> Seq<Seq<char>>
    decreases s.len(),
{
    if s.len() == 0 {
        seq![Seq::<char>::empty()]
    } else {
        let rest = split_on(s.drop_first(), sep);
        if s[0] == sep {
            seq![Seq::<char>::empty()] + rest
        } else {
            rest.update(0, seq![s[0]] + rest[0])
        }
    }
}

/// No piece of a split holds the separator.
pub proof fn lemma_split_on_no_sep(s: Seq<char>, sep: char)
    ensures
        forall|i: int, k: int|
            0 <= i < split_on(s, sep).len() && 0 <= k < split_on(s, sep)[i].len() ==> #[trigger] split_on(s, sep)[i][k]
                != sep,
    decreases s.len(),
{
    if s.len() > 0 {
        let t = s.drop_first();
        lemma_split_on_no_sep(t, sep);
        lemma_split_on_nonempty(t, sep);
        let rest = split_on(t, sep);
        let p = split_on(s, sep);
        assert forall|i: int, k: int| 0 <= i < p.len() && 0 <= k < p[i].len() implies #[trigger] p[i][k] != sep by {
            if s[0] == sep {
                if i > 0 {
                    assert(p[i] == rest[i - 1]);
                }
            } else {
                if i > 0 {
                    assert(p[i] == rest[i]);
                } else if k > 0 {
                    assert(p[0][k] == rest[0][k - 1]);
                }
            }
        }
    }
}

proof fn lemma_split_on_nonempty(s: Seq<char>, sep: char)
    ensures
        split_on(s, sep).len() >= 1,
    decreases s.len(),
{
    if s.len() > 0 {
        lemma_split_on_nonempty(s.drop_first(), sep);
    }
}

/// `split_on` read from the back: splitting `s` followed by one more
/// character.
proof fn lemma_split_on_push(s: Seq<char>, c: char, sep: char)
    ensures
        split_on(s.push(c), sep) == (if c == sep {
            split_on(s, sep).push(Seq::<char>::empty())
        } else {
            let p = split_on(s, sep);
            p.update(p.len() - 1, p.last().push(c))
        }),
    decreases s.len(),
{
    lemma_split_on_nonempty(s, sep);
    if s.len() == 0 {
        assert(s.push(c).drop_first() =~= Seq::<char>::empty());
        assert(s =~= Seq::<char>::empty());
        assert(s.push(c)[0] == c);
        assert(split_on(Seq::<char>::empty(), sep) == seq![Seq::<char>::empty()]);
        assert(split_on(s, sep) == seq![Seq::<char>::empty()]);
        if c == sep {
            assert(split_on(s.push(c), sep) =~= seq![Seq::<char>::empty(), Seq::<char>::empty()]);
        } else {
            assert(split_on(s.push(c), sep) =~= seq![seq![c]]);
            assert(seq![c] =~= Seq::<char>::empty().push(c));
        }
    } else {
        let t = s.drop_first();
        assert(s.push(c).drop_first() =~= t.push(c));
        lemma_split_on_push(t, c, sep);
        lemma_split_on_nonempty(t, sep);
        lemma_split_on_nonempty(t.push(c), sep);
        let rt = split_on(t, sep);
        let rtc = split_on(t.push(c), sep);
        if s[0] == sep {
            if c == sep {
                assert(split_on(s.push(c), sep) =~= split_on(s, sep).push(Seq::<char>::empty()));
            } else {
                let p = split_on(s, sep);
                assert(split_on(s.push(c), sep) =~= p.update(p.len() - 1, p.last().push(c)));
            }
        } else {
            if c == sep {
                assert(split_on(s.push(c), sep) =~= split_on(s, sep).push(Seq::<char>::empty()));
            } else {
                let p = split_on(s, sep);
                if rt.len() == 1 {
                    assert(seq![s[0]] + rt[0].push(c) =~= (seq![s[0]] + rt[0]).push(c));
                }
                assert(split_on(s.push(c), sep) =~= p.update(p.len() - 1, p.last().push(c)));
            }
        }
    }
}

/// The pieces of `s` between occurrences of `sep`.
pub fn split_chars(s: &[char], sep: char) -> (r: Vec<Vec<char>>)
    ensures
        r@.len() == split_on(s@, sep).len(),
        forall|i: int| 0 <= i < r@.len() ==> #[trigger] r@[i]@ == split_on(s@, sep)[i],
{
    let mut r: Vec<Vec<char>> = Vec::new();
    let mut cur: Vec<char> = Vec::new();
    let mut i: usize = 0;
    proof {
        assert(s@.subrange(0, 0) =~= Seq::<char>::empty());
        assert(split_on(Seq::<char>::empty(), sep) =~= seq![Seq::<char>::empty()]);
    }
    while i < s.len()
        invariant
            i <= s.len(),
            r@.len() + 1 == split_on(s@.subrange(0, i as int), sep).len(),
            forall|j: int| 0 <= j < r@.len() ==> #[trigger] r@[j]@ == split_on(
                s@.subrange(0, i as int),
                sep,
            )[j],
            cur@ == split_on(s@.subrange(0, i as int), sep).last(),
        decreases s.len() - i,
    {
        let c = s[i];
        proof {
            assert(s@.subrange(0, i + 1) =~= s@.subrange(0, i as int).push(c));
            lemma_split_on_push(s@.subrange(0, i as int), c, sep);
        }
        if c == sep {
            let done = cur;
            r.push(done);
            cur = Vec::new();
        } else {
            cur.push(c);
        }
        i = i + 1;
    }
    assert(s@.subrange(0, s@.len() as int) =~= s@);
    r.push(cur);
    r
}

} // verus!
