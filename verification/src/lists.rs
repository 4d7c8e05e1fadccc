//! Separator-delimited name lists, such as a nation's endorsements
//! (`"testlandia,maxtopia"`) or a region's nations (`"testlandia:maxtopia"`).

use vstd::prelude::*;

use crate::text::{chars_of, is_white_space, lemma_trim_shape, string_from_chars, trim, trim_chars};

verus! {

broadcast use vstd::seq_lib::group_seq_properties;

/// The pieces of `s` between occurrences of `sep`, in order, as `str::split`
/// yields them: there is always one more piece than there are separators.
pub open spec fn split_on(s: Seq<char>, sep: char) -> Seq<Seq<char>>
    decreases s.len(),
{
    if s.len() == 0 {
        seq![Seq::empty()]
    } else {
        let pieces = split_on(s.drop_last(), sep);
        if s.last() == sep {
            pieces.push(Seq::empty())
        } else {
            pieces.update(pieces.len() - 1, pieces.last().push(s.last()))
        }
    }
}

/// Each piece trimmed of surrounding white space, blank pieces dropped.
pub open spec fn nonblank_trimmed(pieces: Seq<Seq<char>>) -> Seq<Seq<char>> {
    pieces.map_values(|p: Seq<char>| trim(p)).filter(|p: Seq<char>| p.len() > 0)
}

/// The names that the list text `s` holds, separated by `sep`.
pub open spec fn list_items(s: Seq<char>, sep: char) -> Seq<Seq<char>> {
    nonblank_trimmed(split_on(s, sep))
}

/// The character sequences of a sequence of strings.
pub open spec fn views(v: Seq<String>) -> Seq<Seq<char>> {
    v.map_values(|x: String| x@)
}

/// No piece holds the separator, and a piece of a white-space-only text is
/// white space only.
proof fn lemma_split_on_pieces(s: Seq<char>, sep: char)
    ensures
        split_on(s, sep).len() >= 1,
        forall|j: int, k: int|
            0 <= j < split_on(s, sep).len() && 0 <= k < split_on(s, sep)[j].len()
                ==> #[trigger] split_on(s, sep)[j][k] != sep,
        (forall|m: int| 0 <= m < s.len() ==> is_white_space(#[trigger] s[m])) ==> forall|j: int, k: int|
            0 <= j < split_on(s, sep).len() && 0 <= k < split_on(s, sep)[j].len()
                ==> is_white_space(#[trigger] split_on(s, sep)[j][k]),
    decreases s.len(),
{
    if s.len() > 0 {
        let t = s.drop_last();
        lemma_split_on_pieces(t, sep);
        if forall|m: int| 0 <= m < s.len() ==> is_white_space(#[trigger] s[m]) {
            assert forall|m: int| 0 <= m < t.len() implies is_white_space(#[trigger] t[m]) by {
                assert(t[m] == s[m]);
            }
        }
    }
}

/// Every name in a list text is non-blank, holds no separator, and has no
/// white space at either end; a text of white space alone holds no names.
pub proof fn lemma_list_items_clean(s: Seq<char>, sep: char)
    ensures
        forall|i: int| 0 <= i < list_items(s, sep).len() ==> {
            &&& (#[trigger] list_items(s, sep)[i]).len() > 0
            &&& !list_items(s, sep)[i].contains(sep)
            &&& trim(list_items(s, sep)[i]) == list_items(s, sep)[i]
        },
        (forall|m: int| 0 <= m < s.len() ==> is_white_space(#[trigger] s[m])) ==> list_items(s, sep).len() == 0,
{
    let pieces = split_on(s, sep);
    let f = |p: Seq<char>| trim(p);
    let keep = |p: Seq<char>| p.len() > 0;
    let mapped = pieces.map_values(f);
    let items = list_items(s, sep);
    lemma_split_on_pieces(s, sep);
    assert forall|i: int| 0 <= i < items.len() implies {
        &&& (#[trigger] items[i]).len() > 0
        &&& !items[i].contains(sep)
        &&& trim(items[i]) == items[i]
    } by {
        mapped.lemma_filter_pred(keep, i);
        assert(mapped.filter(keep).contains(items[i]));
        mapped.lemma_filter_contains_rev(keep, items[i]);
        let j = choose|j: int| 0 <= j < mapped.len() && mapped[j] == items[i];
        let p = pieces[j];
        lemma_trim_shape(p);
        let (a, b) = choose|a: int, b: int| 0 <= a <= b <= p.len() && trim(p) == #[trigger] p.subrange(a, b);
        if items[i].contains(sep) {
            let k = choose|k: int| 0 <= k < items[i].len() && items[i][k] == sep;
            assert(p[a + k] == sep);
        }
    }
    if forall|m: int| 0 <= m < s.len() ==> is_white_space(#[trigger] s[m]) {
        if items.len() > 0 {
            mapped.lemma_filter_pred(keep, 0);
            assert(mapped.filter(keep).contains(items[0]));
            mapped.lemma_filter_contains_rev(keep, items[0]);
            let j = choose|j: int| 0 <= j < mapped.len() && mapped[j] == items[0];
            lemma_trim_shape(pieces[j]);
            assert forall|k: int| 0 <= k < pieces[j].len() implies is_white_space(#[trigger] pieces[j][k]) by {}
        }
    }
}

proof fn lemma_nonblank_trimmed_push(pieces: Seq<Seq<char>>, p: Seq<char>)
    ensures
        nonblank_trimmed(pieces.push(p)) == if trim(p).len() > 0 {
            nonblank_trimmed(pieces).push(trim(p))
        } else {
            nonblank_trimmed(pieces)
        },
{
    let f = |p: Seq<char>| trim(p);
    let keep = |p: Seq<char>| p.len() > 0;
    assert(pieces.push(p).map_values(f) =~= pieces.map_values(f).push(f(p)));
    pieces.map_values(f).lemma_filter_push(f(p), keep);
}

proof fn lemma_views_push(v: Seq<String>, x: String)
    ensures
        views(v.push(x)) == views(v).push(x@),
{
    assert(views(v.push(x)) =~= views(v).push(x@));
}

/// The names in the list text `s`: the pieces between the `sep` characters,
/// each trimmed of surrounding white space, blank pieces left out.
pub fn split_list(s: &str, sep: char) -> (r: Vec<String>)
    ensures
        views(r@) == list_items(s@, sep),
{
    let v = chars_of(s);
    let mut out: Vec<String> = Vec::new();
    let mut start: usize = 0;
    let mut i: usize = 0;
    proof {
        assert(v@.take(0) =~= Seq::<char>::empty());
        assert(split_on(v@.take(0), sep).drop_last() =~= Seq::<Seq<char>>::empty());
        assert(views(out@) =~= Seq::<Seq<char>>::empty());
        assert(nonblank_trimmed(Seq::<Seq<char>>::empty()) =~= Seq::<Seq<char>>::empty());
    }
    while i < v.len()
        invariant
            v@ == s@,
            start <= i <= v.len(),
            split_on(v@.take(i as int), sep).len() >= 1,
            split_on(v@.take(i as int), sep).last() == v@.subrange(start as int, i as int),
            views(out@) == nonblank_trimmed(split_on(v@.take(i as int), sep).drop_last()),
        decreases v.len() - i,
    {
        let ghost before = split_on(v@.take(i as int), sep);
        assert(v@.take(i + 1).drop_last() =~= v@.take(i as int));
        if v[i] == sep {
            let piece = trim_chars(&v, start, i);
            proof {
                lemma_nonblank_trimmed_push(before.drop_last(), before.last());
                assert(before.drop_last().push(before.last()) =~= before);
            }
            if piece.len() > 0 {
                let item = string_from_chars(piece.as_slice());
                proof {
                    lemma_views_push(out@, item);
                }
                out.push(item);
            }
            start = i + 1;
            proof {
                assert(split_on(v@.take(i + 1), sep) == before.push(Seq::empty()));
                assert(split_on(v@.take(i + 1), sep).drop_last() =~= before);
                assert(v@.subrange(start as int, i + 1) =~= Seq::<char>::empty());
            }
        } else {
            proof {
                let after = split_on(v@.take(i + 1), sep);
                assert(after == before.update(before.len() - 1, before.last().push(v@[i as int])));
                assert(after.drop_last() =~= before.drop_last());
                assert(v@.subrange(start as int, i + 1) =~= v@.subrange(start as int, i as int).push(v@[i as int]));
            }
        }
        i += 1;
    }
    let ghost all = split_on(v@.take(i as int), sep);
    assert(v@.take(i as int) =~= s@);
    let piece = trim_chars(&v, start, i);
    proof {
        lemma_nonblank_trimmed_push(all.drop_last(), all.last());
        assert(all.drop_last().push(all.last()) =~= all);
    }
    if piece.len() > 0 {
        let item = string_from_chars(piece.as_slice());
        proof {
            lemma_views_push(out@, item);
        }
        out.push(item);
    }
    out
}

/// The names joined into one text, with `sep` between each two of them.
pub open spec fn join_with(names: Seq<Seq<char>>, sep: char) -> Seq<char>
    decreases names.len(),
{
    if names.len() == 0 {
        Seq::empty()
    } else if names.len() == 1 {
        names[0]
    } else {
        join_with(names.drop_last(), sep).push(sep) + names.last()
    }
}

/// Whether `name` could stand in a list separated by `sep` as it is:
/// non-blank, without the separator, and neither beginning nor ending with
/// white space.
pub open spec fn clean_name(name: Seq<char>, sep: char) -> bool {
    &&& name.len() > 0
    &&& !name.contains(sep)
    &&& !is_white_space(name[0])
    &&& !is_white_space(name.last())
}

/// Appending text without a separator lengthens the last piece only.
proof fn lemma_split_on_append(s: Seq<char>, t: Seq<char>, sep: char)
    requires
        !t.contains(sep),
    ensures
        split_on(s + t, sep) == split_on(s, sep).update(
            split_on(s, sep).len() - 1,
            split_on(s, sep).last() + t,
        ),
    decreases t.len(),
{
    lemma_split_on_pieces(s, sep);
    if t.len() == 0 {
        assert(s + t =~= s);
        assert(split_on(s, sep).last() + t =~= split_on(s, sep).last());
        assert(split_on(s, sep).update(split_on(s, sep).len() - 1, split_on(s, sep).last())
            =~= split_on(s, sep));
    } else {
        let u = t.drop_last();
        assert(!u.contains(sep)) by {
            if u.contains(sep) {
                let k = choose|k: int| 0 <= k < u.len() && u[k] == sep;
                assert(t[k] == sep);
            }
        }
        lemma_split_on_append(s, u, sep);
        lemma_split_on_pieces(s + u, sep);
        assert((s + t).drop_last() =~= s + u);
        assert((s + t).last() == t.last());
        assert(t.last() != sep) by {
            assert(t[t.len() - 1] == t.last());
        }
        let p = split_on(s, sep);
        let q = split_on(s + u, sep);
        assert(q.len() == p.len());
        assert(q.last() == p.last() + u);
        assert(split_on(s + t, sep) == q.update(q.len() - 1, q.last().push(t.last())));
        assert((p.last() + u).push(t.last()) =~= p.last() + t);
        assert(split_on(s + t, sep) =~= p.update(p.len() - 1, p.last() + t));
    }
}

/// Splitting the joined text of names without the separator gives the
/// names back, one piece each.
proof fn lemma_split_on_join(names: Seq<Seq<char>>, sep: char)
    requires
        names.len() > 0,
        forall|i: int| 0 <= i < names.len() ==> !(#[trigger] names[i]).contains(sep),
    ensures
        split_on(join_with(names, sep), sep) == names,
    decreases names.len(),
{
    if names.len() == 1 {
        lemma_split_on_append(Seq::empty(), names[0], sep);
        assert(Seq::<char>::empty() + names[0] =~= names[0]);
        assert(split_on(Seq::<char>::empty(), sep) == seq![Seq::<char>::empty()]);
        assert(Seq::<char>::empty() + names[0] =~= names[0]);
        assert(split_on(names[0], sep) =~= names);
    } else {
        let front = names.drop_last();
        assert forall|i: int| 0 <= i < front.len() implies !(#[trigger] front[i]).contains(sep) by {
            assert(front[i] == names[i]);
        }
        lemma_split_on_join(front, sep);
        let j = join_with(front, sep).push(sep);
        assert(j.drop_last() =~= join_with(front, sep));
        assert(split_on(j, sep) == front.push(Seq::empty()));
        assert(!names.last().contains(sep)) by {
            assert(names[names.len() - 1] == names.last());
        }
        lemma_split_on_append(j, names.last(), sep);
        assert(Seq::<char>::empty() + names.last() =~= names.last());
        assert(split_on(j + names.last(), sep) =~= names);
    }
}

/// Dropping blanks and trimming changes nothing in a sequence of clean names.
proof fn lemma_nonblank_trimmed_clean(names: Seq<Seq<char>>, sep: char)
    requires
        forall|i: int| 0 <= i < names.len() ==> clean_name(#[trigger] names[i], sep),
    ensures
        nonblank_trimmed(names) == names,
    decreases names.len(),
{
    if names.len() == 0 {
        assert(nonblank_trimmed(names) =~= Seq::<Seq<char>>::empty());
    } else {
        let front = names.drop_last();
        assert forall|i: int| 0 <= i < front.len() implies clean_name(#[trigger] front[i], sep) by {
            assert(front[i] == names[i]);
        }
        lemma_nonblank_trimmed_clean(front, sep);
        assert(clean_name(names[names.len() - 1], sep));
        lemma_trim_shape(names.last());
        lemma_nonblank_trimmed_push(front, names.last());
        assert(front.push(names.last()) =~= names);
    }
}

/// Clean names joined with the separator read back as the same names, in
/// order: `"testlandia,maxtopia"` gives `testlandia` and `maxtopia`.
pub proof fn lemma_join_then_split(names: Seq<Seq<char>>, sep: char)
    requires
        forall|i: int| 0 <= i < names.len() ==> clean_name(#[trigger] names[i], sep),
    ensures
        list_items(join_with(names, sep), sep) == names,
{
    lemma_nonblank_trimmed_clean(names, sep);
    if names.len() == 0 {
        lemma_nonblank_trimmed_push(Seq::empty(), Seq::empty());
        assert(Seq::<Seq<char>>::empty().push(Seq::<char>::empty()) =~= split_on(Seq::<char>::empty(), sep));
        assert(trim(Seq::<char>::empty()) == Seq::<char>::empty());
    } else {
        lemma_split_on_join(names, sep);
    }
}

/// A single clean name, whatever its length, reads back as that one name.
pub proof fn lemma_single_name(name: Seq<char>, sep: char)
    requires
        clean_name(name, sep),
    ensures
        list_items(name, sep) == seq![name],
{
    let names = seq![name];
    assert(join_with(names, sep) == name);
    lemma_join_then_split(names, sep);
}

/// The text of an optional list element: an absent element reads as empty.
pub open spec fn text_or_empty(s: Option<&str>) -> Seq<char> {
    match s {
        Some(t) => t@,
        None => Seq::empty(),
    }
}

/// A nation's endorsements: the comma-separated names of the element's
/// text, trimmed, blank ones left out; an absent element gives no names.
pub fn comma_list(s: Option<&str>) -> (r: Vec<String>)
    ensures
        views(r@) == list_items(text_or_empty(s), ','),
{
    match s {
        Some(t) => split_list(t, ','),
        None => {
            proof {
                reveal_strlit("");
            }
            split_list("", ',')
        },
    }
}

/// A region's nations: the colon-separated names of the element's text,
/// trimmed, blank ones left out; an absent element gives no names.
pub fn colon_list(s: Option<&str>) -> (r: Vec<String>)
    ensures
        views(r@) == list_items(text_or_empty(s), ':'),
{
    match s {
        Some(t) => split_list(t, ':'),
        None => {
            proof {
                reveal_strlit("");
            }
            split_list("", ':')
        },
    }
}

} // verus!
