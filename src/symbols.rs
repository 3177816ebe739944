use vstd::prelude::*;

verus! {

/// The fields of `s` between occurrences of `sep`, in order. There is always
/// at least one field; empty fields are kept.
pub open spec fn split_fields(s: Seq<char>, sep: char) -> Seq<Seq<char>>
    decreases s.len(),
{
    if s.len() == 0 {
        seq![Seq::empty()]
    } else {
        let f = split_fields(s.drop_last(), sep);
        if s.last() == sep {
            f.push(Seq::empty())
        } else {
            f.update(f.len() - 1, f.last().push(s.last()))
        }
    }
}

/// The separator between the symbols of a stored symbol list.
pub open spec fn symbol_separator() -> char {
    '#'
}

pub open spec fn views(v: Seq<String>) -> Seq<Seq<char>> {
    v.map_values(|x: String| x@)
}

/// Splits a stored symbol list, symbols joined by `#`, into its symbols.
pub fn split_symbols(list: &str) -> (r: Vec<String>)
    ensures
        views(r@) == split_fields(list@, symbol_separator()),
{
    let n = list.unicode_len();
    let mut out: Vec<String> = Vec::new();
    let mut start: usize = 0;
    let mut i: usize = 0;
    assert(list@.subrange(0, 0) =~= Seq::<char>::empty());
    assert(views(out@).push(list@.subrange(0, 0)) =~= seq![Seq::<char>::empty()]);
    while i < n
        invariant
            n == list@.len(),
            start <= i <= n,
            split_fields(list@.subrange(0, i as int), symbol_separator()) == views(out@).push(
                list@.subrange(start as int, i as int),
            ),
        decreases n - i,
    {
        let c = list.get_char(i);
        let ghost prefix = list@.subrange(0, i + 1);
        let ghost before = views(out@);
        assert(prefix.drop_last() =~= list@.subrange(0, i as int));
        assert(prefix.last() == c);
        if c == '#' {
            let field = String::from_str(list.substring_char(start, i));
            out.push(field);
            start = i + 1;
            assert(views(out@) =~= before.push(field@));
            assert(list@.subrange(start as int, i + 1) =~= Seq::<char>::empty());
        } else {
            assert(list@.subrange(start as int, i + 1) =~= list@.subrange(start as int, i as int).push(c));
            assert(views(out@).push(list@.subrange(start as int, i + 1)) =~= before.push(
                list@.subrange(start as int, i as int),
            ).update(before.len() as int, list@.subrange(start as int, i as int).push(c)));
        }
        i = i + 1;
    }
    assert(list@.subrange(0, n as int) =~= list@);
    let ghost before = views(out@);
    let last = String::from_str(list.substring_char(start, n));
    out.push(last);
    assert(views(out@) =~= before.push(list@.subrange(start as int, n as int)));
    out
}

} // verus!
