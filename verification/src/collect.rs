//! Gathering the workers' reports into one sorted result.
//!
//! Workers report open ports over a shared channel in no particular order,
//! and a port cannot be reported twice because the partitions are disjoint;
//! the collector nevertheless tolerates duplicates. `collect_ports` turns
//! whatever arrived into the strictly ascending sequence of the distinct
//! ports received, and `lemma_sorted_distinct_canonical` proves that this
//! sequence is determined by the set of ports alone, not by arrival order.

use vstd::prelude::*;

verus! {

/// `s` is strictly ascending: any later element is larger, so `s` also
/// holds no duplicates.
pub open spec fn strictly_sorted(s: Seq<u16>) -> bool {
    forall|a: int, b: int| 0 <= a < b < s.len() ==> s[a] < s[b]
}

/// The outcome of a scan: every open port found, in strictly ascending
/// order with no duplicates.
#[derive(Clone, PartialEq, Eq, Debug)]
pub struct ScanResult {
    pub open_ports: Vec<u16>,
}

impl ScanResult {
    /// The ports stand in strictly ascending order.
    pub open spec fn wf(self) -> bool {
        strictly_sorted(self.open_ports@)
    }
}

/// Puts `x` into a strictly ascending vector, keeping it strictly
/// ascending; a value already present is left alone.
fn insert_sorted(v: &mut Vec<u16>, x: u16)
    requires
        strictly_sorted(old(v)@),
    ensures
        strictly_sorted(final(v)@),
        forall|p: u16| final(v)@.contains(p) <==> (old(v)@.contains(p) || p == x),
{
    let mut j: usize = 0;
    while j < v.len() && v[j] < x
        invariant
            j <= v@.len(),
            forall|k: int| 0 <= k < j ==> v@[k] < x,
            v@ == old(v)@,
        decreases v@.len() - j,
    {
        j += 1;
    }
    if j < v.len() && v[j] == x {
        proof {
            assert(v@.contains(x));
        }
    } else {
        let ghost prior = v@;
        v.insert(j, x);
        proof {
            prior.insert_ensures(j as int, x);
            assert forall|a: int, b: int| 0 <= a < b < v@.len() implies v@[a] < v@[b] by {
                if b < j {
                    assert(v@[a] == prior[a] && v@[b] == prior[b]);
                } else if a < j && b == j {
                    assert(v@[a] == prior[a] && v@[b] == x);
                } else if a < j && b > j {
                    assert(v@[a] == prior[a] && v@[b] == prior[b - 1]);
                    assert(prior[b - 1] > x);
                } else if a == j {
                    assert(v@[a] == x && v@[b] == prior[b - 1]);
                    assert(prior[b - 1] > x);
                } else {
                    assert(v@[a] == prior[a - 1] && v@[b] == prior[b - 1]);
                }
            };
            assert forall|p: u16| v@.contains(p) implies (prior.contains(p) || p == x) by {
                let k = choose|k: int| 0 <= k < v@.len() && v@[k] == p;
                if k < j {
                    assert(prior[k] == p);
                } else if k > j {
                    assert(prior[k - 1] == p);
                }
            };
            assert forall|p: u16| prior.contains(p) implies v@.contains(p) by {
                let k = choose|k: int| 0 <= k < prior.len() && prior[k] == p;
                if k < j {
                    assert(v@[k] == p);
                } else {
                    assert(v@[k + 1] == p);
                }
            };
            assert(v@[j as int] == x);
            assert(v@.contains(x));
        }
    }
}

/// Accumulates the reported ports, in whatever order they arrived, into the
/// strictly ascending sequence of the distinct ports reported: a port is in
/// the result exactly when it was reported at least once.
pub fn collect_ports(reports: &Vec<u16>) -> (r: ScanResult)
    ensures
        r.wf(),
        forall|p: u16| r.open_ports@.contains(p) <==> reports@.contains(p),
        reports@.len() == 0 ==> r.open_ports@.len() == 0,
{
    let mut out: Vec<u16> = Vec::new();
    let mut idx: usize = 0;
    while idx < reports.len()
        invariant
            idx <= reports@.len(),
            strictly_sorted(out@),
            forall|p: u16|
                out@.contains(p) <==> (exists|k: int| 0 <= k < idx && reports@[k] == p),
        decreases reports@.len() - idx,
    {
        let ghost before = out@;
        let x = reports[idx];
        insert_sorted(&mut out, x);
        proof {
            assert forall|p: u16| out@.contains(p) implies (exists|k: int|
                0 <= k < idx + 1 && reports@[k] == p) by {
                if before.contains(p) {
                    let k = choose|k: int| 0 <= k < idx && reports@[k] == p;
                    assert(0 <= k < idx + 1 && reports@[k] == p);
                } else {
                    assert(reports@[idx as int] == p);
                }
            };
            assert forall|p: u16|
                (exists|k: int| 0 <= k < idx + 1 && reports@[k] == p) implies out@.contains(
                p,
            ) by {
                let k = choose|k: int| 0 <= k < idx + 1 && reports@[k] == p;
                if k < idx {
                    assert(before.contains(p));
                }
            };
        }
        idx += 1;
    }
    proof {
        if reports@.len() == 0 && out@.len() > 0 {
            assert(out@.contains(out@[0]));
        }
    }
    ScanResult { open_ports: out }
}

/// The collector's output is canonical: two strictly ascending sequences
/// that hold the same values are equal. So the result of a scan is
/// determined by which ports were reported, never by the order in which
/// the workers' reports arrived.
pub proof fn lemma_sorted_distinct_canonical(s1: Seq<u16>, s2: Seq<u16>)
    requires
        strictly_sorted(s1),
        strictly_sorted(s2),
        forall|p: u16| s1.contains(p) <==> s2.contains(p),
    ensures
        s1 =~= s2,
    decreases s1.len(),
{
    if s1.len() == 0 {
        if s2.len() > 0 {
            assert(s2.contains(s2[0]));
            assert(false);
        }
    } else {
        assert(s1.contains(s1.last()));
        let k2 = choose|k: int| 0 <= k < s2.len() && s2[k] == s1.last();
        assert(s2.contains(s2.last()));
        let k1 = choose|k: int| 0 <= k < s1.len() && s1[k] == s2.last();
        // the two last elements are each other's bounds, hence equal
        assert(s2[k2] <= s2.last());
        assert(s1[k1] <= s1.last());
        assert(s1.last() == s2.last());
        let t1 = s1.drop_last();
        let t2 = s2.drop_last();
        assert forall|p: u16| t1.contains(p) implies t2.contains(p) by {
            let k = choose|k: int| 0 <= k < t1.len() && t1[k] == p;
            assert(s1[k] == p);
            assert(s1.contains(p));
            let m = choose|m: int| 0 <= m < s2.len() && s2[m] == p;
            assert(p < s1.last());
            assert(m < s2.len() - 1);
            assert(t2[m] == p);
        };
        assert forall|p: u16| t2.contains(p) implies t1.contains(p) by {
            let k = choose|k: int| 0 <= k < t2.len() && t2[k] == p;
            assert(s2[k] == p);
            assert(s2.contains(p));
            let m = choose|m: int| 0 <= m < s1.len() && s1[m] == p;
            assert(p < s2.last());
            assert(m < s1.len() - 1);
            assert(t1[m] == p);
        };
        lemma_sorted_distinct_canonical(t1, t2);
        assert(s1 =~= t1.push(s1.last()));
        assert(s2 =~= t2.push(s2.last()));
    }
}

} // verus!
