use vstd::prelude::*;

verus! {

/// The present values of `s`, in order; absent entries are left out.
pub open spec fn present<T>(s: Seq<Option<T>>) -> Seq<T>
    decreases s.len(),
{
    if s.len() == 0 {
        Seq::empty()
    } else {
        match s[0] {
            Some(x) => seq![x] + present(s.drop_first()),
            None => present(s.drop_first()),
        }
    }
}

/// Number of absent entries of `s`.
pub open spec fn absent_count<T>(s: Seq<Option<T>>) -> nat
    decreases s.len(),
{
    if s.len() == 0 {
        0
    } else {
        (if s[0] is None {
            1nat
        } else {
            0nat
        }) + absent_count(s.drop_first())
    }
}

proof fn lemma_present_of_reverse_step<T>(s: Seq<Option<T>>)
    requires
        s.len() > 0,
    ensures
        present(s.reverse()) == match s.last() {
            Some(x) => seq![x] + present(s.drop_last().reverse()),
            None => present(s.drop_last().reverse()),
        },
{
    let r = s.reverse();
    assert(r[0] == s.last());
    assert(r.drop_first() =~= s.drop_last().reverse());
}

/// Assembles a candle series from the values read for a run of buckets given
/// newest first: absent buckets are skipped, never filled, and the result is
/// oldest first.
pub fn chronological<T>(newest_first: Vec<Option<T>>) -> (r: Vec<T>)
    ensures
        r@ == present(newest_first@.reverse()),
{
    let ghost all = newest_first@;
    let mut rest = newest_first;
    let mut out: Vec<T> = Vec::new();
    while rest.len() > 0
        invariant
            present(all.reverse()) == out@ + present(rest@.reverse()),
        decreases rest.len(),
    {
        let ghost before = rest@;
        let item = rest.pop();
        proof {
            lemma_present_of_reverse_step(before);
            assert(rest@ == before.drop_last());
        }
        match item {
            Some(Some(x)) => {
                let ghost old_out = out@;
                out.push(x);
                assert(out@ + present(rest@.reverse()) =~= old_out + (seq![x] + present(
                    rest@.reverse(),
                )));
            },
            _ => {},
        }
    }
    assert(rest@.reverse() =~= Seq::<Option<T>>::empty());
    assert(out@ + present(rest@.reverse()) =~= out@);
    out
}

/// Every read bucket ends up either in the series or among the absent ones:
/// the series is as long as the number of buckets read, less those absent.
pub proof fn lemma_present_len<T>(s: Seq<Option<T>>)
    ensures
        present(s).len() + absent_count(s) == s.len(),
    decreases s.len(),
{
    if s.len() > 0 {
        lemma_present_len(s.drop_first());
    }
}

/// Reversing the reads does not change how many buckets are absent.
pub proof fn lemma_absent_count_reverse<T>(s: Seq<Option<T>>)
    ensures
        absent_count(s.reverse()) == absent_count(s),
    decreases s.len(),
{
    if s.len() > 0 {
        let init = s.drop_last();
        let last = seq![s.last()];
        lemma_absent_count_reverse(init);
        assert(init + last =~= s);
        assert(last + init.reverse() =~= s.reverse());
        lemma_absent_count_append(init, last);
        lemma_absent_count_append(last, init.reverse());
    }
}

proof fn lemma_absent_count_append<T>(a: Seq<Option<T>>, b: Seq<Option<T>>)
    ensures
        absent_count(a + b) == absent_count(a) + absent_count(b),
    decreases a.len(),
{
    if a.len() > 0 {
        lemma_absent_count_append(a.drop_first(), b);
        assert((a + b).drop_first() =~= a.drop_first() + b);
    } else {
        assert(a + b =~= b);
    }
}

/// The assembled series holds exactly the buckets that were present: its
/// length is the number requested less the number absent.
pub proof fn lemma_series_len<T>(newest_first: Seq<Option<T>>)
    ensures
        present(newest_first.reverse()).len() == newest_first.len() - absent_count(newest_first),
{
    lemma_present_len(newest_first.reverse());
    lemma_absent_count_reverse(newest_first);
}

} // verus!
