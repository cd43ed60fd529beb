//! Stable ordering of servers by ascending reported load.
use crate::server::Server;
use vstd::prelude::*;

verus! {

/// The number of leading entries of `r` that a server of load `load` goes
/// after when inserted stably: every trailing entry with a strictly greater
/// load is passed over.
pub open spec fn upper_bound(r: Seq<Server>, load: u32) -> nat
    decreases r.len(),
{
    if r.len() == 0 {
        0
    } else if r.last().load > load {
        upper_bound(r.drop_last(), load)
    } else {
        r.len() as nat
    }
}

/// `x` inserted into `r` after every entry whose load is not greater than its own.
pub open spec fn insert_by_load(r: Seq<Server>, x: Server) -> Seq<Server> {
    r.insert(upper_bound(r, x.load) as int, x)
}

/// `s` sorted by ascending load, servers of equal load keeping their order in `s`.
pub open spec fn sorted_by_load(s: Seq<Server>) -> Seq<Server>
    decreases s.len(),
{
    if s.len() == 0 {
        Seq::empty()
    } else {
        insert_by_load(sorted_by_load(s.drop_last()), s.last())
    }
}

/// No entry has a greater load than an entry after it.
pub open spec fn loads_ascending(s: Seq<Server>) -> bool {
    forall|i: int, j: int| 0 <= i < j < s.len() ==> #[trigger] s[i].load <= #[trigger] s[j].load
}

/// The insertion point lies within `r`; in an ascending `r` it splits the
/// entries whose load is at most `load` from those whose load exceeds it.
pub proof fn lemma_upper_bound(r: Seq<Server>, load: u32)
    ensures
        upper_bound(r, load) <= r.len(),
        loads_ascending(r) ==> forall|i: int|
            0 <= i < upper_bound(r, load) ==> #[trigger] r[i].load <= load,
        forall|i: int| upper_bound(r, load) <= i < r.len() ==> #[trigger] r[i].load > load,
    decreases r.len(),
{
    if r.len() > 0 && r.last().load > load {
        let p = r.drop_last();
        lemma_upper_bound(p, load);
        assert forall|i: int| upper_bound(r, load) <= i < r.len() implies #[trigger] r[i].load
            > load by {
            if i < r.len() - 1 {
                assert(r[i] == p[i]);
            }
        }
        if loads_ascending(r) {
            assert(loads_ascending(p)) by {
                assert forall|i: int, j: int| 0 <= i < j < p.len() implies #[trigger] p[i].load
                    <= #[trigger] p[j].load by {
                    assert(p[i] == r[i] && p[j] == r[j]);
                }
            }
            assert forall|i: int| 0 <= i < upper_bound(r, load) implies #[trigger] r[i].load
                <= load by {
                assert(r[i] == p[i]);
            }
        }
    } else if r.len() > 0 && loads_ascending(r) {
        assert forall|i: int| 0 <= i < upper_bound(r, load) implies #[trigger] r[i].load
            <= load by {
            if i < r.len() - 1 {
                assert(r[i].load <= r[r.len() - 1].load);
            }
        }
    }
}

/// Stable insertion keeps the loads ascending and adds exactly one entry.
pub proof fn lemma_insert_by_load(r: Seq<Server>, x: Server)
    requires
        loads_ascending(r),
    ensures
        loads_ascending(insert_by_load(r, x)),
        insert_by_load(r, x).to_multiset() =~= r.to_multiset().insert(x),
        insert_by_load(r, x).len() == r.len() + 1,
{
    lemma_upper_bound(r, x.load);
    let k = upper_bound(r, x.load) as int;
    let t = insert_by_load(r, x);
    assert forall|i: int, j: int| 0 <= i < j < t.len() implies #[trigger] t[i].load
        <= #[trigger] t[j].load by {
        if j < k {
        } else if i < k && j == k {
        } else if i < k && j > k {
            assert(t[j] == r[j - 1]);
        } else if i == k {
            assert(t[j] == r[j - 1]);
        } else {
            assert(t[i] == r[i - 1] && t[j] == r[j - 1]);
        }
    }
    broadcast use vstd::seq_lib::group_to_multiset_ensures;

    assert(t.remove(k) =~= r);
    assert(t[k] == x);
    assert(t.to_multiset().count(x) > 0);
    assert(t.to_multiset() =~= t.to_multiset().remove(x).insert(x));
}

/// Sorting by load yields ascending loads and the same servers, each as often
/// as before.
pub proof fn lemma_sorted_by_load(s: Seq<Server>)
    ensures
        loads_ascending(sorted_by_load(s)),
        sorted_by_load(s).to_multiset() =~= s.to_multiset(),
        sorted_by_load(s).len() == s.len(),
    decreases s.len(),
{
    broadcast use vstd::seq_lib::group_to_multiset_ensures;

    if s.len() > 0 {
        let p = s.drop_last();
        lemma_sorted_by_load(p);
        lemma_insert_by_load(sorted_by_load(p), s.last());
        assert(p.push(s.last()) =~= s);
    }
}

/// The index at which a server of load `load` is stably inserted into `r`.
fn insertion_index(r: &Vec<Server>, load: u32) -> (j: usize)
    ensures
        j == upper_bound(r@, load),
{
    let mut j: usize = r.len();
    assert(r@.subrange(0, j as int) =~= r@);
    while j > 0 && r[j - 1].load > load
        invariant
            j <= r.len(),
            upper_bound(r@, load) == upper_bound(r@.subrange(0, j as int), load),
        decreases j,
    {
        assert(r@.subrange(0, j - 1) =~= r@.subrange(0, j as int).drop_last());
        j -= 1;
    }
    j
}

/// Sorts servers by ascending load; servers of equal load keep their order.
pub fn sort_by_load(servers: Vec<Server>) -> (r: Vec<Server>)
    ensures
        r@ == sorted_by_load(servers@),
{
    let ghost s = servers@;
    let mut rest = servers;
    let mut out: Vec<Server> = Vec::new();
    let mut taken: usize = 0;
    let total: usize = rest.len();
    assert(s.subrange(0, 0) =~= Seq::<Server>::empty());
    assert(s.subrange(0, s.len() as int) =~= s);
    while rest.len() > 0
        invariant
            taken + rest.len() == s.len(),
            s.len() == total,
            rest@ == s.subrange(taken as int, s.len() as int),
            out@ == sorted_by_load(s.subrange(0, taken as int)),
        decreases rest.len(),
    {
        let x = rest.remove(0);
        let j = insertion_index(&out, x.load);
        proof {
            lemma_upper_bound(out@, x.load);
        }
        out.insert(j, x);
        assert(s.subrange(0, taken + 1).drop_last() =~= s.subrange(0, taken as int));
        assert(rest@ =~= s.subrange(taken + 1, s.len() as int));
        taken += 1;
    }
    assert(s.subrange(0, taken as int) =~= s);
    out
}

} // verus!
