//! Ordered lists of process ids without repetition.

use vstd::prelude::*;

verus! {

/// `s` with every occurrence of `pid` taken out, the rest in their order.
pub open spec fn without(s: Seq<usize>, pid: usize) -> Seq<usize>
    decreases s.len(),
{
    if s.len() == 0 {
        s
    } else if s.last() == pid {
        without(s.drop_last(), pid)
    } else {
        without(s.drop_last(), pid).push(s.last())
    }
}

/// What `without` holds: the members of `s` other than `pid`.
pub proof fn lemma_without_contains(s: Seq<usize>, pid: usize)
    ensures
        forall|x: usize| #[trigger] without(s, pid).contains(x) ==> s.contains(x) && x != pid,
        forall|x: usize| #[trigger] s.contains(x) ==> x == pid || without(s, pid).contains(x),
        without(s, pid).len() <= s.len(),
    decreases s.len(),
{
    if s.len() > 0 {
        let t = s.drop_last();
        let w = without(s, pid);
        let wt = without(t, pid);
        lemma_without_contains(t, pid);
        assert forall|x: usize| #[trigger] w.contains(x) implies s.contains(x) && x != pid by {
            let i = choose|i: int| 0 <= i < w.len() && w[i] == x;
            if s.last() != pid && i == w.len() - 1 {
                assert(s[s.len() - 1] == x);
            } else {
                assert(wt[i] == x);
                assert(wt.contains(x));
                assert(t.contains(x));
                let j = choose|j: int| 0 <= j < t.len() && t[j] == x;
                assert(s[j] == x);
            }
        }
        assert forall|x: usize| #[trigger] s.contains(x) implies x == pid || w.contains(x) by {
            let j = choose|j: int| 0 <= j < s.len() && s[j] == x;
            if x != pid {
                if j == s.len() - 1 {
                    assert(w[w.len() - 1] == x);
                } else {
                    assert(t[j] == x);
                    assert(t.contains(x));
                    assert(wt.contains(x));
                    let i = choose|i: int| 0 <= i < wt.len() && wt[i] == x;
                    assert(w[i] == x);
                }
            }
        }
    }
}

/// Taking a value out of a list without repetition leaves one without repetition.
pub proof fn lemma_without_no_duplicates(s: Seq<usize>, pid: usize)
    requires
        s.no_duplicates(),
    ensures
        without(s, pid).no_duplicates(),
    decreases s.len(),
{
    if s.len() > 0 {
        let t = s.drop_last();
        lemma_without_no_duplicates(t, pid);
        lemma_without_contains(t, pid);
        if s.last() != pid {
            let w = without(s, pid);
            let wt = without(t, pid);
            assert forall|i: int, j: int| 0 <= i < w.len() && 0 <= j < w.len() && i != j implies w[i]
                != w[j] by {
                if i == w.len() - 1 || j == w.len() - 1 {
                    let k = if i == w.len() - 1 { j } else { i };
                    assert(wt[k] == w[k]);
                    assert(wt.contains(w[k]));
                    assert(t.contains(w[k]));
                    let m = choose|m: int| 0 <= m < t.len() && t[m] == w[k];
                    assert(s[m] == w[k]);
                    assert(s[m] != s[s.len() - 1]);
                } else {
                    assert(wt[i] != wt[j]);
                }
            }
        }
    }
}

/// Taking out the head of a list without repetition leaves its tail.
pub proof fn lemma_without_head(s: Seq<usize>)
    requires
        s.len() > 0,
        s.no_duplicates(),
    ensures
        without(s, s[0]) == s.drop_first(),
    decreases s.len(),
{
    let t = s.drop_last();
    if s.len() == 1 {
        assert(without(t, s[0]) =~= s.drop_first());
    } else {
        assert(s[s.len() - 1] != s[0]);
        assert(t[0] == s[0]);
        lemma_without_head(t);
        assert(t.drop_first().push(s.last()) =~= s.drop_first());
    }
}

/// Takes every occurrence of `pid` out of `list`.
pub fn remove_pid(list: &mut Vec<usize>, pid: usize)
    ensures
        final(list)@ == without(old(list)@, pid),
{
    let mut kept: Vec<usize> = Vec::new();
    let mut i: usize = 0;
    while i < list.len()
        invariant
            i <= list.len(),
            kept@ == without(list@.take(i as int), pid),
        decreases list.len() - i,
    {
        assert(list@.take(i as int + 1).drop_last() == list@.take(i as int));
        if list[i] != pid {
            kept.push(list[i]);
        }
        i += 1;
    }
    assert(list@.take(list.len() as int) == list@);
    *list = kept;
}

} // verus!
