//! Character-level helpers shared by the library: whitespace and control
//! classification, trimming, splitting, and conversions between `&str`,
//! `String` and `Vec<char>`.

use vstd::prelude::*;

verus! {

/// Appends one character to a string.
///
/// Wraps `String::push`, documented as "appends the given char to the end of
/// this String": the contract states exactly that.
#[verifier::external_body]
pub(crate) fn push_char(s: &mut String, c: char)
    ensures
        final(s)@ == old(s)@.push(c),
{
    s.push(c);
}

/// The characters of `s`, in order.
pub fn chars_of(s: &str) -> (v: Vec<char>)
    ensures
        v@ == s@,
{
    let mut v: Vec<char> = Vec::new();
    for c in it: s.chars()
        invariant
            v@ == it.seq().take(it.index() as int),
            it.seq() == s@,
    {
        v.push(c);
    }
    v
}

} // verus!

verus! {

/// `c` has the Unicode `White_Space` property (what `char::is_whitespace`
/// tests): U+0009..U+000D, U+0020, U+0085, U+00A0, U+1680, U+2000..U+200A,
/// U+2028, U+2029, U+202F, U+205F and U+3000.
pub open spec fn is_ws(c: char) -> bool {
    let u = c as u32;
    ||| 0x9 <= u <= 0xD
    ||| u == 0x20
    ||| u == 0x85
    ||| u == 0xA0
    ||| u == 0x1680
    ||| 0x2000 <= u <= 0x200A
    ||| u == 0x2028
    ||| u == 0x2029
    ||| u == 0x202F
    ||| u == 0x205F
    ||| u == 0x3000
}

/// `c` is in the Unicode general category `Cc` (what `char::is_control`
/// tests): U+0000..U+001F and U+007F..U+009F.
pub open spec fn is_ctrl(c: char) -> bool {
    let u = c as u32;
    u <= 0x1F || (0x7F <= u && u <= 0x9F)
}

/// Executable form of [`is_ws`].
pub fn is_whitespace(c: char) -> (b: bool)
    ensures
        b == is_ws(c),
{
    let u = c as u32;
    (0x9 <= u && u <= 0xD) || u == 0x20 || u == 0x85 || u == 0xA0 || u == 0x1680 || (0x2000
        <= u && u <= 0x200A) || u == 0x2028 || u == 0x2029 || u == 0x202F || u == 0x205F || u
        == 0x3000
}

/// Executable form of [`is_ctrl`].
pub fn is_control(c: char) -> (b: bool)
    ensures
        b == is_ctrl(c),
{
    let u = c as u32;
    u <= 0x1F || (0x7F <= u && u <= 0x9F)
}

/// `s` without its leading whitespace.
pub open spec fn trim_start_seq(s: Seq<char>) -> Seq<char>
    decreases s.len(),
{
    if s.len() > 0 && is_ws(s[0]) {
        trim_start_seq(s.drop_first())
    } else {
        s
    }
}

/// `s` without its trailing whitespace.
pub open spec fn trim_end_seq(s: Seq<char>) -> Seq<char>
    decreases s.len(),
{
    if s.len() > 0 && is_ws(s.last()) {
        trim_end_seq(s.drop_last())
    } else {
        s
    }
}

/// `s` without leading and trailing whitespace: what `str::trim` returns.
pub open spec fn trim_seq(s: Seq<char>) -> Seq<char> {
    trim_end_seq(trim_start_seq(s))
}

/// Bounds `(a, b)`, inside `lo..hi`, of the trimmed form of `v[lo..hi]`.
pub fn trim_range(v: &Vec<char>, lo: usize, hi: usize) -> (r: (usize, usize))
    requires
        lo <= hi <= v@.len(),
    ensures
        lo <= r.0 <= r.1 <= hi,
        v@.subrange(r.0 as int, r.1 as int) == trim_seq(v@.subrange(lo as int, hi as int)),
{
    let mut a = lo;
    while a < hi && is_whitespace(v[a])
        invariant
            lo <= a <= hi <= v@.len(),
            trim_start_seq(v@.subrange(lo as int, hi as int)) == trim_start_seq(
                v@.subrange(a as int, hi as int),
            ),
        decreases hi - a,
    {
        assert(v@.subrange(a as int, hi as int).drop_first() =~= v@.subrange(
            a + 1,
            hi as int,
        ));
        a = a + 1;
    }
    let mut b = hi;
    while b > a && is_whitespace(v[b - 1])
        invariant
            lo <= a <= b <= hi <= v@.len(),
            trim_start_seq(v@.subrange(lo as int, hi as int)) == v@.subrange(a as int, hi as int),
            trim_end_seq(v@.subrange(a as int, hi as int)) == trim_end_seq(
                v@.subrange(a as int, b as int),
            ),
        decreases b - a,
    {
        assert(v@.subrange(a as int, b as int).drop_last() =~= v@.subrange(
            a as int,
            b - 1,
        ));
        b = b - 1;
    }
    (a, b)
}

/// A string holding the characters `v[lo..hi]`.
pub fn string_from_range(v: &Vec<char>, lo: usize, hi: usize) -> (s: String)
    requires
        lo <= hi <= v@.len(),
    ensures
        s@ == v@.subrange(lo as int, hi as int),
{
    let mut s = String::new();
    let mut i = lo;
    while i < hi
        invariant
            lo <= i <= hi <= v@.len(),
            s@ == v@.subrange(lo as int, i as int),
        decreases hi - i,
    {
        push_char(&mut s, v[i]);
        assert(v@.subrange(lo as int, i + 1) =~= v@.subrange(lo as int, i as int).push(v@[i as int]));
        i = i + 1;
    }
    s
}

} // verus!

verus! {

/// The pieces of `s` between occurrences of `sep`, in order, as `str::split`
/// yields them: `k` separators give `k + 1` pieces, some of them empty.
pub open spec fn split_seq(s: Seq<char>, sep: char) -> Seq<Seq<char>>
    decreases s.len(),
{
    if s.len() == 0 {
        seq![Seq::<char>::empty()]
    } else {
        let p = split_seq(s.drop_last(), sep);
        if s.last() == sep {
            p.push(Seq::<char>::empty())
        } else {
            p.update(p.len() - 1, p.last().push(s.last()))
        }
    }
}

/// Splitting always yields at least one piece.
pub proof fn lemma_split_nonempty(s: Seq<char>, sep: char)
    ensures
        split_seq(s, sep).len() >= 1,
    decreases s.len(),
{
    if s.len() > 0 {
        lemma_split_nonempty(s.drop_last(), sep);
    }
}

/// How one more character extends the split of `s`.
pub proof fn lemma_split_push(s: Seq<char>, c: char, sep: char)
    ensures
        split_seq(s.push(c), sep) == (if c == sep {
            split_seq(s, sep).push(Seq::<char>::empty())
        } else {
            split_seq(s, sep).update(
                split_seq(s, sep).len() - 1,
                split_seq(s, sep).last().push(c),
            )
        }),
{
    assert(s.push(c).drop_last() =~= s);
    lemma_split_nonempty(s, sep);
}

/// Splitting a concatenation: the last piece of `p` and the first piece of
/// `q` join into one piece; the other pieces are those of `p` and of `q`.
pub proof fn lemma_split_concat(p: Seq<char>, q: Seq<char>, sep: char)
    ensures
        split_seq(p + q, sep) == split_seq(p, sep).drop_last() + seq![
            split_seq(p, sep).last() + split_seq(q, sep)[0],
        ] + split_seq(q, sep).skip(1),
    decreases q.len(),
{
    let sp = split_seq(p, sep);
    lemma_split_nonempty(p, sep);
    if q.len() == 0 {
        assert(p + q =~= p);
        assert(sp.last() + Seq::<char>::empty() =~= sp.last());
        assert(sp.drop_last() + seq![sp.last()] =~= sp);
        assert(sp.drop_last() + seq![sp.last() + split_seq(q, sep)[0]] + split_seq(q, sep).skip(1)
            =~= sp);
    } else {
        let q0 = q.drop_last();
        let c = q.last();
        lemma_split_concat(p, q0, sep);
        assert(p + q =~= (p + q0).push(c));
        assert(q0.push(c) =~= q);
        lemma_split_push(p + q0, c, sep);
        lemma_split_push(q0, c, sep);
        lemma_split_nonempty(q0, sep);
        let s0 = split_seq(q0, sep);
        let sq = split_seq(q, sep);
        let x = split_seq(p + q0, sep);
        if c == sep {
            assert(sq =~= s0.push(Seq::<char>::empty()));
            assert(sq.skip(1) =~= s0.skip(1).push(Seq::<char>::empty()));
            assert(split_seq(p + q, sep) =~= sp.drop_last() + seq![sp.last() + sq[0]]
                + sq.skip(1));
        } else if s0.len() == 1 {
            assert(sq[0] =~= s0[0].push(c));
            assert(sq.skip(1) =~= Seq::<Seq<char>>::empty());
            assert(s0.skip(1) =~= Seq::<Seq<char>>::empty());
            assert((sp.last() + s0[0]).push(c) =~= sp.last() + s0[0].push(c));
            assert(split_seq(p + q, sep) =~= sp.drop_last() + seq![sp.last() + sq[0]]
                + sq.skip(1));
        } else {
            assert(sq[0] == s0[0]);
            assert(sq.skip(1) =~= s0.skip(1).update(s0.len() - 2, s0.last().push(c)));
            assert(split_seq(p + q, sep) =~= sp.drop_last() + seq![sp.last() + sq[0]]
                + sq.skip(1));
        }
    }
}

/// Text without the separator is one piece.
pub proof fn lemma_split_without_sep(t: Seq<char>, sep: char)
    requires
        !t.contains(sep),
    ensures
        split_seq(t, sep) == seq![t],
    decreases t.len(),
{
    if t.len() > 0 {
        assert(!t.drop_last().contains(sep)) by {
            if t.drop_last().contains(sep) {
                let k = choose|k: int| 0 <= k < t.drop_last().len() && t.drop_last()[k] == sep;
                assert(t[k] == sep);
            }
        }
        assert(t.last() != sep) by {
            if t.last() == sep {
                assert(t[t.len() - 1] == sep);
            }
        }
        lemma_split_without_sep(t.drop_last(), sep);
        assert(t.drop_last().push(t.last()) =~= t);
        assert(seq![t.drop_last()].update(0, t.drop_last().push(t.last())) =~= seq![t]);
    } else {
        assert(t =~= Seq::<char>::empty());
    }
}

/// `s` is unchanged by trimming when it has no whitespace at either end.
pub proof fn lemma_trim_fixed(s: Seq<char>)
    requires
        s.len() > 0 ==> !is_ws(s[0]) && !is_ws(s.last()),
    ensures
        trim_seq(s) == s,
{
}

/// Trimming leaves no whitespace at either end.
pub proof fn lemma_trim_ends(s: Seq<char>)
    ensures
        trim_seq(s).len() > 0 ==> !is_ws(trim_seq(s)[0]) && !is_ws(trim_seq(s).last()),
        trim_seq(s).len() <= s.len(),
    decreases s.len(),
{
    lemma_trim_start_ends(s);
    lemma_trim_end_ends(trim_start_seq(s));
    let t = trim_start_seq(s);
    if trim_end_seq(t).len() > 0 {
        lemma_trim_end_prefix(t);
        assert(trim_end_seq(t)[0] == t[0]);
    }
}

proof fn lemma_trim_start_ends(s: Seq<char>)
    ensures
        trim_start_seq(s).len() > 0 ==> !is_ws(trim_start_seq(s)[0]),
        trim_start_seq(s).len() <= s.len(),
    decreases s.len(),
{
    if s.len() > 0 && is_ws(s[0]) {
        lemma_trim_start_ends(s.drop_first());
    }
}

proof fn lemma_trim_end_ends(s: Seq<char>)
    ensures
        trim_end_seq(s).len() > 0 ==> !is_ws(trim_end_seq(s).last()),
        trim_end_seq(s).len() <= s.len(),
    decreases s.len(),
{
    if s.len() > 0 && is_ws(s.last()) {
        lemma_trim_end_ends(s.drop_last());
    }
}

proof fn lemma_trim_end_prefix(s: Seq<char>)
    ensures
        trim_end_seq(s) == s.take(trim_end_seq(s).len() as int),
    decreases s.len(),
{
    if s.len() > 0 && is_ws(s.last()) {
        lemma_trim_end_prefix(s.drop_last());
        lemma_trim_end_ends(s.drop_last());
        assert(s.drop_last().take(trim_end_seq(s).len() as int) =~= s.take(
            trim_end_seq(s).len() as int,
        ));
    } else {
        assert(s.take(s.len() as int) =~= s);
    }
}

/// Leading whitespace in front of `z` is all that trimming the start
/// removes from `w + z` before it reaches `z`.
pub proof fn lemma_trim_start_after_ws(w: Seq<char>, z: Seq<char>)
    requires
        forall|k: int| 0 <= k < w.len() ==> is_ws(#[trigger] w[k]),
    ensures
        trim_start_seq(w + z) == trim_start_seq(z),
    decreases w.len(),
{
    if w.len() == 0 {
        assert(w + z =~= z);
    } else {
        assert((w + z)[0] == w[0]);
        assert((w + z).drop_first() =~= w.drop_first() + z);
        assert forall|k: int| 0 <= k < w.drop_first().len() implies is_ws(
            #[trigger] w.drop_first()[k],
        ) by {
            assert(w.drop_first()[k] == w[k + 1]);
        }
        lemma_trim_start_after_ws(w.drop_first(), z);
    }
}

/// Trailing whitespace after text that ends in a visible character is all
/// that trimming the end removes.
pub proof fn lemma_trim_end_before_ws(p: Seq<char>, w: Seq<char>)
    requires
        p.len() > 0,
        !is_ws(p.last()),
        forall|k: int| 0 <= k < w.len() ==> is_ws(#[trigger] w[k]),
    ensures
        trim_end_seq(p + w) == p,
    decreases w.len(),
{
    if w.len() == 0 {
        assert(p + w =~= p);
    } else {
        assert((p + w).last() == w[w.len() - 1]);
        assert((p + w).drop_last() =~= p + w.drop_last());
        assert forall|k: int| 0 <= k < w.drop_last().len() implies is_ws(
            #[trigger] w.drop_last()[k],
        ) by {
            assert(w.drop_last()[k] == w[k]);
        }
        lemma_trim_end_before_ws(p, w.drop_last());
    }
}

/// Two texts of one length with whitespace at the same places lose the same
/// number of trailing characters to trimming.
pub proof fn lemma_trim_end_same_shape(z: Seq<char>, z2: Seq<char>)
    requires
        z.len() == z2.len(),
        forall|k: int| 0 <= k < z.len() ==> is_ws(#[trigger] z[k]) == is_ws(z2[k]),
    ensures
        trim_end_seq(z).len() == trim_end_seq(z2).len(),
        trim_end_seq(z).len() <= z.len(),
        trim_end_seq(z) == z.take(trim_end_seq(z).len() as int),
        trim_end_seq(z2) == z2.take(trim_end_seq(z).len() as int),
    decreases z.len(),
{
    lemma_trim_end_prefix(z);
    lemma_trim_end_prefix(z2);
    lemma_trim_end_ends(z);
    if z.len() > 0 {
        assert(is_ws(z[z.len() - 1]) == is_ws(z2[z.len() - 1]));
        if is_ws(z.last()) {
            assert forall|k: int| 0 <= k < z.drop_last().len() implies is_ws(
                #[trigger] z.drop_last()[k],
            ) == is_ws(z2.drop_last()[k]) by {
                assert(is_ws(z[k]) == is_ws(z2[k]));
            }
            lemma_trim_end_same_shape(z.drop_last(), z2.drop_last());
        }
    }
}

/// Trimming twice is trimming once.
pub proof fn lemma_trim_idempotent(s: Seq<char>)
    ensures
        trim_seq(trim_seq(s)) == trim_seq(s),
{
    lemma_trim_ends(s);
    lemma_trim_fixed(trim_seq(s));
}

} // verus!

verus! {

/// Trimming removes a run of whitespace at each end and nothing else: the
/// result is `s[a..b]`, where everything before `a` and from `b` on is
/// whitespace.
pub proof fn lemma_trim_bounds(s: Seq<char>) -> (r: (int, int))
    ensures
        0 <= r.0 <= r.1 <= s.len(),
        trim_seq(s) == s.subrange(r.0, r.1),
        forall|k: int| 0 <= k < r.0 ==> is_ws(#[trigger] s[k]),
        forall|k: int| r.1 <= k < s.len() ==> is_ws(#[trigger] s[k]),
{
    let a = lemma_trim_start_bound(s);
    let t = s.subrange(a, s.len() as int);
    let e = lemma_trim_end_bound(t);
    assert(t.subrange(0, e) =~= s.subrange(a, a + e));
    assert forall|k: int| a + e <= k < s.len() implies is_ws(#[trigger] s[k]) by {
        assert(s[k] == t[k - a]);
    }
    (a, a + e)
}

proof fn lemma_trim_start_bound(s: Seq<char>) -> (a: int)
    ensures
        0 <= a <= s.len(),
        trim_start_seq(s) == s.subrange(a, s.len() as int),
        forall|k: int| 0 <= k < a ==> is_ws(#[trigger] s[k]),
    decreases s.len(),
{
    if s.len() > 0 && is_ws(s[0]) {
        let a1 = lemma_trim_start_bound(s.drop_first());
        assert(s.drop_first().subrange(a1, s.len() - 1) =~= s.subrange(a1 + 1, s.len() as int));
        assert forall|k: int| 0 <= k < a1 + 1 implies is_ws(#[trigger] s[k]) by {
            if k > 0 {
                assert(s[k] == s.drop_first()[k - 1]);
            }
        }
        a1 + 1
    } else {
        assert(s.subrange(0, s.len() as int) =~= s);
        0
    }
}

proof fn lemma_trim_end_bound(s: Seq<char>) -> (b: int)
    ensures
        0 <= b <= s.len(),
        trim_end_seq(s) == s.subrange(0, b),
        forall|k: int| b <= k < s.len() ==> is_ws(#[trigger] s[k]),
    decreases s.len(),
{
    if s.len() > 0 && is_ws(s.last()) {
        let b1 = lemma_trim_end_bound(s.drop_last());
        assert(s.drop_last().subrange(0, b1) =~= s.subrange(0, b1));
        assert forall|k: int| b1 <= k < s.len() implies is_ws(#[trigger] s[k]) by {
            if k < s.len() - 1 {
                assert(s[k] == s.drop_last()[k]);
            }
        }
        b1
    } else {
        assert(s.subrange(0, s.len() as int) =~= s);
        s.len() as int
    }
}

} // verus!

verus! {

/// Whether two strings hold the same characters.
pub fn str_eq(a: &str, b: &str) -> (r: bool)
    ensures
        r == (a@ == b@),
{
    let x = chars_of(a);
    let y = chars_of(b);
    if x.len() != y.len() {
        return false;
    }
    let mut i: usize = 0;
    while i < x.len()
        invariant
            x@ == a@,
            y@ == b@,
            x@.len() == y@.len(),
            i <= x@.len(),
            forall|k: int| 0 <= k < i ==> x@[k] == y@[k],
        decreases x@.len() - i,
    {
        if x[i] != y[i] {
            return false;
        }
        i = i + 1;
    }
    assert(x@ =~= y@);
    true
}

} // verus!

verus! {

/// ASCII letters in lower case; every other character unchanged.
pub open spec fn ascii_lower(c: char) -> char {
    if 'A' <= c && c <= 'Z' {
        ((c as u32) + 32) as char
    } else {
        c
    }
}

/// `a` and `b` are the same text up to the case of ASCII letters, as
/// `str::eq_ignore_ascii_case` compares them.
pub open spec fn eq_ignore_ascii_case(a: Seq<char>, b: Seq<char>) -> bool {
    a.len() == b.len() && forall|i: int| 0 <= i < a.len() ==> ascii_lower(#[trigger] a[i]) == ascii_lower(b[i])
}

/// Executable form of [`ascii_lower`].
pub fn to_ascii_lower(c: char) -> (r: char)
    ensures
        r == ascii_lower(c),
{
    if 'A' <= c && c <= 'Z' {
        let u = (c as u32) + 32;
        let b = u as u8;
        b as char
    } else {
        c
    }
}

/// Executable form of [`eq_ignore_ascii_case`].
pub fn str_eq_ignore_ascii_case(a: &str, b: &str) -> (r: bool)
    ensures
        r == eq_ignore_ascii_case(a@, b@),
{
    let x = chars_of(a);
    let y = chars_of(b);
    if x.len() != y.len() {
        return false;
    }
    let mut i: usize = 0;
    while i < x.len()
        invariant
            x@ == a@,
            y@ == b@,
            x@.len() == y@.len(),
            i <= x@.len(),
            forall|k: int| 0 <= k < i ==> ascii_lower(#[trigger] x@[k]) == ascii_lower(y@[k]),
        decreases x@.len() - i,
    {
        if to_ascii_lower(x[i]) != to_ascii_lower(y[i]) {
            return false;
        }
        i = i + 1;
    }
    true
}

} // verus!
