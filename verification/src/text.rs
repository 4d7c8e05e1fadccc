//! Character-level helpers shared by the parsers.

use vstd::prelude::*;

verus! {

broadcast use vstd::string::group_string_axioms;

/// `String::push`: appends one character to the end of the string.
#[verifier::external_body]
fn push_char(s: &mut String, c: char)
    ensures
        final(s)@ == old(s)@.push(c),
{
    s.push(c);
}

/// The characters of `s`, in order.
pub fn chars_of(s: &str) -> (v: Vec<char>)
    ensures
        v@ == s@,
{
    let mut v: Vec<char> = Vec::new();
    for c in it: s.chars()
        invariant
            v@ == it.seq().take(it.index() as int),
    {
        v.push(c);
    }
    v
}

/// Builds a string out of the characters of `v`, in order.
pub fn string_from_chars(v: &[char]) -> (s: String)
    ensures
        s@ == v@,
{
    let mut s = String::new();
    for i in 0..v.len()
        invariant
            s@ == v@.take(i as int),
    {
        push_char(&mut s, v[i]);
        assert(v@.take(i + 1) == v@.take(i as int).push(v@[i as int]));
    }
    assert(v@.take(v.len() as int) == v@);
    s
}

/// Whether `a` and `b` hold the same characters.
pub fn text_equals(a: &str, b: &str) -> (r: bool)
    ensures
        r == (a@ == b@),
{
    let x = chars_of(a);
    let y = chars_of(b);
    if x.len() != y.len() {
        return false;
    }
    for i in 0..x.len()
        invariant
            x@ == a@,
            y@ == b@,
            x.len() == y.len(),
            forall|k: int| 0 <= k < i ==> x@[k] == y@[k],
    {
        if x[i] != y[i] {
            return false;
        }
    }
    assert(a@ =~= b@);
    true
}

/// Whether `c` has the Unicode `White_Space` property, the set that
/// `char::is_whitespace` and `str::trim` go by.
pub open spec fn is_white_space(c: char) -> bool {
    let u = c as u32;
    ||| 0x09 <= u <= 0x0d
    ||| u == 0x20
    ||| u == 0x85
    ||| u == 0xa0
    ||| u == 0x1680
    ||| 0x2000 <= u <= 0x200a
    ||| u == 0x2028
    ||| u == 0x2029
    ||| u == 0x202f
    ||| u == 0x205f
    ||| u == 0x3000
}

/// Executable test for `is_white_space`.
pub fn white_space(c: char) -> (b: bool)
    ensures
        b == is_white_space(c),
{
    let u = c as u32;
    (0x09 <= u && u <= 0x0d) || u == 0x20 || u == 0x85 || u == 0xa0 || u == 0x1680
        || (0x2000 <= u && u <= 0x200a) || u == 0x2028 || u == 0x2029 || u == 0x202f
        || u == 0x205f || u == 0x3000
}

/// Among the first 256 characters, exactly tab, line feed, vertical tab,
/// form feed, carriage return, space, next line (U+0085) and no-break space
/// (U+00A0) are white space; in particular no letter, digit or punctuation
/// mark of ASCII is.
pub proof fn lemma_white_space_latin1(c: char)
    requires
        (c as u32) < 0x100,
    ensures
        is_white_space(c) <==> (c == '\t' || c == '\n' || c == '\u{b}' || c == '\u{c}' || c == '\r'
            || c == ' ' || c == '\u{85}' || c == '\u{a0}'),
        ('0' <= c <= '9' || 'a' <= c <= 'z' || 'A' <= c <= 'Z' || c == '_' || c == '-' || c == '.'
            || c == ',' || c == ':') ==> !is_white_space(c),
{
}

/// `s` without its leading white space.
pub open spec fn trim_start(s: Seq<char>) -> Seq<char>
    decreases s.len(),
{
    if s.len() > 0 && is_white_space(s[0]) {
        trim_start(s.drop_first())
    } else {
        s
    }
}

/// `s` without its trailing white space.
pub open spec fn trim_end(s: Seq<char>) -> Seq<char>
    decreases s.len(),
{
    if s.len() > 0 && is_white_space(s.last()) {
        trim_end(s.drop_last())
    } else {
        s
    }
}

/// `s` without its leading and trailing white space, as `str::trim` gives it.
pub open spec fn trim(s: Seq<char>) -> Seq<char> {
    trim_end(trim_start(s))
}

proof fn lemma_trim_start_skip(s: Seq<char>, i: int)
    requires
        0 <= i <= s.len(),
        forall|k: int| 0 <= k < i ==> is_white_space(#[trigger] s[k]),
    ensures
        trim_start(s) == trim_start(s.subrange(i, s.len() as int)),
    decreases i,
{
    if i > 0 {
        assert(s.drop_first().subrange(i - 1, s.drop_first().len() as int) =~= s.subrange(i, s.len() as int));
        lemma_trim_start_skip(s.drop_first(), i - 1);
    } else {
        assert(s.subrange(0, s.len() as int) =~= s);
    }
}

proof fn lemma_trim_end_take(s: Seq<char>, j: int)
    requires
        0 <= j <= s.len(),
        forall|k: int| j <= k < s.len() ==> is_white_space(#[trigger] s[k]),
    ensures
        trim_end(s) == trim_end(s.subrange(0, j)),
    decreases s.len() - j,
{
    if j < s.len() {
        assert(s.drop_last().subrange(0, j) =~= s.subrange(0, j));
        lemma_trim_end_take(s.drop_last(), j);
    } else {
        assert(s.subrange(0, j) =~= s);
    }
}

/// Whether every character of `s[from..to]` is white space.
pub open spec fn all_white(s: Seq<char>, from: int, to: int) -> bool {
    forall|m: int| from <= m < to ==> is_white_space(#[trigger] s[m])
}

/// What `trim_start` leaves is what follows a run of white space at the
/// start of `s`, and it is empty or does not begin with white space.
pub proof fn lemma_trim_start_shape(s: Seq<char>)
    ensures
        exists|k: int|
            0 <= k <= s.len() && all_white(s, 0, k) && trim_start(s) == #[trigger] s.subrange(
                k,
                s.len() as int,
            ),
        trim_start(s).len() == 0 || !is_white_space(trim_start(s)[0]),
    decreases s.len(),
{
    if s.len() > 0 && is_white_space(s[0]) {
        let d = s.drop_first();
        lemma_trim_start_shape(d);
        let k = choose|k: int|
            0 <= k <= d.len() && all_white(d, 0, k) && trim_start(d) == #[trigger] d.subrange(
                k,
                d.len() as int,
            );
        assert(d.subrange(k, d.len() as int) =~= s.subrange(k + 1, s.len() as int));
        assert forall|m: int| 0 <= m < k + 1 implies is_white_space(#[trigger] s[m]) by {
            if m > 0 {
                assert(s[m] == d[m - 1]);
            }
        }
        assert(all_white(s, 0, k + 1));
    } else {
        assert(s.subrange(0, s.len() as int) =~= s);
        assert(all_white(s, 0, 0));
    }
}

/// What `trim_end` leaves is what precedes a run of white space at the end
/// of `s`, and it is empty or does not end with white space.
pub proof fn lemma_trim_end_shape(s: Seq<char>)
    ensures
        exists|k: int|
            0 <= k <= s.len() && all_white(s, k, s.len() as int) && trim_end(s) == #[trigger] s.subrange(
                0,
                k,
            ),
        trim_end(s).len() == 0 || !is_white_space(trim_end(s).last()),
    decreases s.len(),
{
    if s.len() > 0 && is_white_space(s.last()) {
        let d = s.drop_last();
        lemma_trim_end_shape(d);
        let k = choose|k: int|
            0 <= k <= d.len() && all_white(d, k, d.len() as int) && trim_end(d) == #[trigger] d.subrange(
                0,
                k,
            );
        assert(d.subrange(0, k) =~= s.subrange(0, k));
        assert forall|m: int| k <= m < s.len() implies is_white_space(#[trigger] s[m]) by {
            if m < s.len() - 1 {
                assert(s[m] == d[m]);
            }
        }
        assert(all_white(s, k, s.len() as int));
    } else {
        assert(s.subrange(0, s.len() as int) =~= s);
        assert(all_white(s, s.len() as int, s.len() as int));
    }
}

/// Trimming removes white space and nothing else: `trim(s)` is a contiguous
/// part `s[i..j]` of `s` such that every character before `i` and from `j`
/// on is white space, and it is empty or neither begins nor ends with white
/// space. So trimming again changes nothing, a string of white space alone
/// trims to nothing, and a string that neither begins nor ends with white
/// space trims to itself, whatever its length.
pub proof fn lemma_trim_shape(s: Seq<char>)
    ensures
        exists|i: int, j: int|
            0 <= i <= j <= s.len() && all_white(s, 0, i) && all_white(s, j, s.len() as int) && trim(s)
                == #[trigger] s.subrange(i, j),
        trim(s).len() == 0 || (!is_white_space(trim(s)[0]) && !is_white_space(trim(s).last())),
        trim(trim(s)) == trim(s),
        all_white(s, 0, s.len() as int) ==> trim(s).len() == 0,
        s.len() > 0 && !is_white_space(s[0]) && !is_white_space(s.last()) ==> trim(s) == s,
{
    let t = trim_start(s);
    lemma_trim_start_shape(s);
    lemma_trim_end_shape(t);
    let i = choose|k: int|
        0 <= k <= s.len() && all_white(s, 0, k) && t == #[trigger] s.subrange(k, s.len() as int);
    let j = choose|k: int|
        0 <= k <= t.len() && all_white(t, k, t.len() as int) && trim_end(t) == #[trigger] t.subrange(0, k);
    assert(t.subrange(0, j) =~= s.subrange(i, i + j));
    assert forall|m: int| i + j <= m < s.len() implies is_white_space(#[trigger] s[m]) by {
        assert(s[m] == t[m - i]);
    }
    assert(all_white(s, i + j, s.len() as int));
    let u = trim(s);
    if u.len() > 0 {
        assert(u[0] == t[0]);
        assert(trim_start(u) == u);
        assert(trim_end(u) == u);
    } else {
        assert(trim_start(u) == u);
        assert(trim_end(u) == u);
    }
    if all_white(s, 0, s.len() as int) && u.len() > 0 {
        assert(u[0] == s[i]);
    }
    if s.len() > 0 && !is_white_space(s[0]) && !is_white_space(s.last()) {
        if i > 0 {
            assert(is_white_space(s[0]));
        }
        if i + j < s.len() {
            assert(is_white_space(s[s.len() - 1]));
        }
        assert(u =~= s);
    }
}

/// The characters `v[from..to]` without their leading and trailing white space.
pub fn trim_chars(v: &Vec<char>, from: usize, to: usize) -> (r: Vec<char>)
    requires
        from <= to <= v.len(),
    ensures
        r@ == trim(v@.subrange(from as int, to as int)),
{
    let ghost s = v@.subrange(from as int, to as int);
    let mut i = from;
    while i < to && white_space(v[i])
        invariant
            from <= i <= to <= v.len(),
            s == v@.subrange(from as int, to as int),
            forall|k: int| from <= k < i ==> is_white_space(#[trigger] v@[k]),
        decreases to - i,
    {
        i += 1;
    }
    proof {
        assert forall|k: int| 0 <= k < i - from implies is_white_space(#[trigger] s[k]) by {
            assert(s[k] == v@[from + k]);
        }
        lemma_trim_start_skip(s, i - from);
        assert(s.subrange(i - from, s.len() as int) =~= v@.subrange(i as int, to as int));
    }
    let ghost t = v@.subrange(i as int, to as int);
    assert(trim_start(t) == t);
    let mut j = to;
    while j > i && white_space(v[j - 1])
        invariant
            from <= i <= j <= to <= v.len(),
            t == v@.subrange(i as int, to as int),
            forall|k: int| j <= k < to ==> is_white_space(#[trigger] v@[k]),
        decreases j - i,
    {
        j -= 1;
    }
    proof {
        assert forall|k: int| j - i <= k < t.len() implies is_white_space(#[trigger] t[k]) by {
            assert(t[k] == v@[i + k]);
        }
        lemma_trim_end_take(t, j - i);
        assert(t.subrange(0, j - i) =~= v@.subrange(i as int, j as int));
    }
    let mut r: Vec<char> = Vec::new();
    let mut k = i;
    while k < j
        invariant
            i <= k <= j <= v.len(),
            r@ == v@.subrange(i as int, k as int),
        decreases j - k,
    {
        r.push(v[k]);
        assert(v@.subrange(i as int, k + 1) =~= v@.subrange(i as int, k as int).push(v@[k as int]));
        k += 1;
    }
    r
}

} // verus!
