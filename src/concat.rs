//! The comma-joined aggregate columns of the catalog views, and their parsing.

use vstd::prelude::*;

verus! {

/// The delimiter of aggregated one-to-many columns.
pub const DELIMITER: char = ',';

/// Splits `s` at every occurrence of `d`, left to right: `"a,b"` gives
/// `["a", "b"]`, `"a,"` gives `["a", ""]`. Every text splits into at least
/// one part; an aggregate reads the empty text apart (see `parse_aggregate`).
pub open spec fn split_on(s: Seq<char>, d: char) -> Seq<Seq<char>>
    decreases s.len(),
{
    if s.len() == 0 {
        seq![Seq::<char>::empty()]
    } else {
        let prev = split_on(s.drop_last(), d);
        if s.last() == d {
            prev.push(Seq::<char>::empty())
        } else {
            prev.update(prev.len() - 1, prev.last().push(s.last()))
        }
    }
}

/// Joins the parts with `d` between each two of them.
pub open spec fn join_with(parts: Seq<Seq<char>>, d: char) -> Seq<char>
    decreases parts.len(),
{
    if parts.len() == 0 {
        Seq::<char>::empty()
    } else if parts.len() == 1 {
        parts[0]
    } else {
        join_with(parts.drop_last(), d).push(d) + parts.last()
    }
}

/// The views of a sequence of strings.
pub open spec fn views(v: Seq<String>) -> Seq<Seq<char>> {
    v.map_values(|x: String| x@)
}

/// Splitting always gives at least one part.
pub proof fn lemma_split_nonempty(s: Seq<char>, d: char)
    ensures
        split_on(s, d).len() >= 1,
    decreases s.len(),
{
    if s.len() > 0 {
        lemma_split_nonempty(s.drop_last(), d);
    }
}

/// Splitting `a` followed by a run `b` free of the delimiter extends the last
/// part of `a`'s split by `b`.
proof fn lemma_split_append_plain(a: Seq<char>, b: Seq<char>, d: char)
    requires
        !b.contains(d),
    ensures
        split_on(a + b, d).len() == split_on(a, d).len(),
        split_on(a + b, d) == split_on(a, d).update(
            split_on(a, d).len() - 1,
            split_on(a, d).last() + b,
        ),
    decreases b.len(),
{
    lemma_split_nonempty(a, d);
    if b.len() == 0 {
        assert(a + b =~= a);
        assert(split_on(a, d).last() + b =~= split_on(a, d).last());
        assert(split_on(a, d).update(split_on(a, d).len() - 1, split_on(a, d).last())
            =~= split_on(a, d));
    } else {
        let b0 = b.drop_last();
        assert(!b0.contains(d)) by {
            if b0.contains(d) {
                let k = choose|k: int| 0 <= k < b0.len() && b0[k] == d;
                assert(b[k] == d);
            }
        }
        lemma_split_append_plain(a, b0, d);
        assert((a + b).drop_last() =~= a + b0);
        assert((a + b).last() == b.last());
        assert(b.last() != d) by {
            assert(b[b.len() - 1] == b.last());
        }
        lemma_split_nonempty(a + b0, d);
        assert(split_on(a, d).last() + b =~= (split_on(a, d).last() + b0).push(b.last()));
        assert(split_on(a + b, d) =~= split_on(a, d).update(
            split_on(a, d).len() - 1,
            split_on(a, d).last() + b,
        ));
    }
}

/// Joining parts that hold no delimiter and splitting the result again gives
/// the parts back.
pub proof fn lemma_split_join(parts: Seq<Seq<char>>, d: char)
    requires
        parts.len() >= 1,
        forall|i: int| 0 <= i < parts.len() ==> !(#[trigger] parts[i]).contains(d),
    ensures
        split_on(join_with(parts, d), d) == parts,
    decreases parts.len(),
{
    if parts.len() == 1 {
        lemma_split_append_plain(Seq::<char>::empty(), parts[0], d);
        assert(Seq::<char>::empty() + parts[0] =~= parts[0]);
        assert(split_on(Seq::<char>::empty(), d) =~= seq![Seq::<char>::empty()]);
        assert(Seq::<char>::empty() + parts[0] =~= parts[0]);
        assert(split_on(parts[0], d) =~= parts);
    } else {
        let init = parts.drop_last();
        assert forall|i: int| 0 <= i < init.len() implies !(#[trigger] init[i]).contains(d) by {
            assert(init[i] == parts[i]);
        }
        lemma_split_join(init, d);
        let a = join_with(init, d).push(d);
        assert(a.drop_last() =~= join_with(init, d));
        assert(split_on(a, d) == init.push(Seq::<char>::empty()));
        assert(!parts.last().contains(d)) by {
            assert(parts[parts.len() - 1] == parts.last());
        }
        lemma_split_append_plain(a, parts.last(), d);
        assert(Seq::<char>::empty() + parts.last() =~= parts.last());
        assert(split_on(a + parts.last(), d) =~= parts);
    }
}

/// The values of an aggregated column: none for the empty text, else the
/// parts between delimiters.
pub open spec fn parse_aggregate(s: Seq<char>) -> Seq<Seq<char>> {
    if s.len() == 0 {
        Seq::<Seq<char>>::empty()
    } else {
        split_on(s, DELIMITER)
    }
}

/// An aggregate survives the round trip: joining non-empty values that hold
/// no delimiter and parsing the result gives the values back, and no values
/// give the empty text, which parses to no values.
pub proof fn lemma_parse_join(parts: Seq<Seq<char>>)
    requires
        forall|i: int|
            0 <= i < parts.len() ==> (#[trigger] parts[i]).len() > 0 && !parts[i].contains(
                DELIMITER,
            ),
    ensures
        parse_aggregate(join_with(parts, DELIMITER)) == parts,
{
    if parts.len() == 0 {
        assert(parse_aggregate(join_with(parts, DELIMITER)) =~= parts);
    } else {
        if parts.len() == 1 {
            assert(parts[0].len() > 0);
        } else {
            assert(parts.last() == parts[parts.len() - 1]);
            assert(join_with(parts, DELIMITER).len() > 0);
        }
        lemma_split_join(parts, DELIMITER);
    }
}

/// Parses an aggregated column: an absent value is `None`; the empty text
/// gives no values; any other text is split at every delimiter.
pub fn parse_concat(row: Option<String>) -> (r: Option<Vec<String>>)
    ensures
        row is None ==> r is None,
        row is Some ==> r is Some && views(r->Some_0@) == parse_aggregate(row->Some_0@),
        row matches Some(s) ==> (s@.len() == 0 ==> (r matches Some(v) && v@.len() == 0)),
{
    match row {
        None => None,
        Some(s) => {
            if s.as_str().unicode_len() == 0 {
                let v: Vec<String> = Vec::new();
                assert(views(v@) =~= parse_aggregate(s@));
                Some(v)
            } else {
                Some(split_string(&s, DELIMITER))
            }
        },
    }
}

/// Splits `s` at every occurrence of `d`.
pub fn split_string(s: &String, d: char) -> (r: Vec<String>)
    ensures
        views(r@) == split_on(s@, d),
{
    let n = s.as_str().unicode_len();
    let mut parts: Vec<String> = Vec::new();
    let mut start: usize = 0;
    let mut i: usize = 0;
    assert(views(parts@) =~= Seq::<Seq<char>>::empty());
    assert(s@.subrange(0, 0) =~= Seq::<char>::empty());
    assert(views(parts@).push(s@.subrange(0, 0)) =~= seq![Seq::<char>::empty()]);
    while i < n
        invariant
            n == s@.len(),
            start <= i <= n,
            views(parts@).push(s@.subrange(start as int, i as int)) == split_on(
                s@.subrange(0, i as int),
                d,
            ),
        decreases n - i,
    {
        let c = s.as_str().get_char(i);
        let ghost prev = s@.subrange(0, i as int);
        assert(s@.subrange(0, i + 1).drop_last() =~= prev);
        assert(s@.subrange(0, i + 1).last() == c);
        if c == d {
            let part = s.as_str().substring_char(start, i);
            let ghost old_parts = parts@;
            parts.push(part.to_owned());
            assert(views(parts@) =~= views(old_parts).push(part@));
            start = i + 1;
            assert(s@.subrange(start as int, i + 1) =~= Seq::<char>::empty());
        } else {
            assert(s@.subrange(start as int, i + 1) =~= s@.subrange(start as int, i as int).push(c));
        }
        i = i + 1;
    }
    let last = s.as_str().substring_char(start, n);
    let ghost old_parts = parts@;
    parts.push(last.to_owned());
    assert(views(parts@) =~= views(old_parts).push(last@));
    assert(s@.subrange(0, n as int) =~= s@);
    parts
}

} // verus!
