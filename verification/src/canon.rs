//! API-friendly ("canonical") names: `"The North Pacific"` becomes
//! `"the_north_pacific"`.

use vstd::prelude::*;

verus! {

/// What `str::to_lowercase` gives for `s`: the lowercase equivalent
/// according to the Unicode `Lowercase` property.
pub uninterp spec fn lowercase(s: Seq<char>) -> Seq<char>;

/// `str::to_lowercase`. Claimed: the result is `lowercase` of the argument.
#[verifier::external_body]
fn to_lowercase(s: &str) -> (r: String)
    ensures
        r@ == lowercase(s@),
{
    s.to_lowercase()
}

/// `c`, with a space turned into an underscore.
pub open spec fn underscore_for_space(c: char) -> char {
    if c == ' ' {
        '_'
    } else {
        c
    }
}

/// `s` with every space replaced by an underscore, as
/// `str::replace(' ', "_")` gives it.
pub open spec fn spaces_to_underscores(s: Seq<char>) -> Seq<char> {
    Seq::new(s.len(), |i: int| underscore_for_space(s[i]))
}

/// The canonical form of a name: lowercased, spaces turned into underscores.
pub open spec fn canonical(name: Seq<char>) -> Seq<char> {
    spaces_to_underscores(lowercase(name))
}

/// Replaces every space of `s` by an underscore.
pub fn replace_spaces(s: &str) -> (r: String)
    ensures
        r@ == spaces_to_underscores(s@),
{
    let v = crate::text::chars_of(s);
    let mut out: Vec<char> = Vec::new();
    for i in 0..v.len()
        invariant
            v@ == s@,
            out@ == spaces_to_underscores(s@.take(i as int)),
    {
        let c = v[i];
        if c == ' ' {
            out.push('_');
        } else {
            out.push(c);
        }
        assert(spaces_to_underscores(s@.take(i + 1)) =~= spaces_to_underscores(s@.take(i as int)).push(
            underscore_for_space(c),
        ));
    }
    assert(s@.take(v.len() as int) =~= s@);
    crate::text::string_from_chars(out.as_slice())
}

/// The canonical form of `name`: lowercased, then every space replaced by
/// an underscore (`"Crazy girl"` gives `"crazy_girl"`).
pub fn canonicalize(name: &str) -> (r: String)
    ensures
        r@ == canonical(name@),
{
    let lower = to_lowercase(name);
    replace_spaces(lower.as_str())
}

/// Canonical forms of each name, in order (a region's embassies).
pub fn canonicalize_all(names: Vec<String>) -> (r: Vec<String>)
    ensures
        r.len() == names.len(),
        forall|i: int| 0 <= i < names.len() ==> (#[trigger] r@[i])@ == canonical(names@[i]@),
{
    let mut out: Vec<String> = Vec::new();
    for i in 0..names.len()
        invariant
            out.len() == i,
            forall|k: int| 0 <= k < i ==> (#[trigger] out@[k])@ == canonical(names@[k]@),
    {
        out.push(canonicalize(names[i].as_str()));
    }
    out
}

/// Replacing spaces changes spaces and nothing else: the result is as long
/// as `s`, has an underscore wherever `s` has a space, and every other
/// character of `s` at its place.
pub proof fn lemma_spaces_to_underscores_pointwise(s: Seq<char>)
    ensures
        spaces_to_underscores(s).len() == s.len(),
        forall|k: int|
            0 <= k < s.len() ==> (s[k] == ' ' ==> #[trigger] spaces_to_underscores(s)[k] == '_') && (s[k]
                != ' ' ==> spaces_to_underscores(s)[k] == s[k]),
{
}

/// A canonical name is the lowercased name with each space turned into an
/// underscore and every other character kept at its place.
pub proof fn lemma_canonical_pointwise(name: Seq<char>)
    ensures
        canonical(name).len() == lowercase(name).len(),
        forall|k: int|
            0 <= k < lowercase(name).len() ==> (lowercase(name)[k] == ' ' ==> #[trigger] canonical(name)[k]
                == '_') && (lowercase(name)[k] != ' ' ==> canonical(name)[k] == lowercase(name)[k]),
{
    lemma_spaces_to_underscores_pointwise(lowercase(name));
}

/// A canonical name holds no space, and is as long as the lowercased name.
pub proof fn lemma_canonical_has_no_space(name: Seq<char>)
    ensures
        !canonical(name).contains(' '),
        canonical(name).len() == lowercase(name).len(),
{
    if canonical(name).contains(' ') {
        let k = choose|k: int| 0 <= k < canonical(name).len() && canonical(name)[k] == ' ';
        assert(canonical(name)[k] == underscore_for_space(lowercase(name)[k]));
    }
}

} // verus!
