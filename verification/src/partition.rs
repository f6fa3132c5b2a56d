//! Dividing the port range among workers.
//!
//! Worker `i` of `w` owns the interleaved stride `i+1, i+1+w, i+1+2w, ...`
//! of ports within `1..=65535`. Interleaving, rather than contiguous blocks,
//! keeps every worker's share the same size to within one port, so workers
//! finish in comparable time wherever open ports cluster. Together the `w`
//! strides cover every port exactly once; `lemma_partition_complete` and
//! `lemma_partition_disjoint` prove it.

use vstd::arithmetic::div_mod::lemma_div_is_ordered;
use vstd::arithmetic::div_mod::lemma_div_pos_is_pos;
use vstd::arithmetic::div_mod::lemma_fundamental_div_mod;
use vstd::arithmetic::div_mod::lemma_fundamental_div_mod_converse;
use vstd::arithmetic::div_mod::lemma_mod_bound;
use vstd::prelude::*;

use crate::collect::strictly_sorted;
use crate::target::ScanTarget;

verus! {

/// The highest TCP port number; a scan covers `1..=MAX_PORT`.
pub const MAX_PORT: u16 = 65535;

/// How many ports worker `i` of `w` owns: the length of the arithmetic
/// progression `i+1, i+1+w, ...` that stays within `1..=65535`.
pub open spec fn worker_port_count(i: int, w: int) -> int
    recommends
        1 <= w,
        0 <= i < w,
{
    (MAX_PORT - (i + 1)) / w + 1
}

/// The ports worker `i` of `w` owns, in the order it probes them:
/// the arithmetic progression `i+1, i+1+w, i+1+2w, ...` within `1..=65535`.
pub open spec fn worker_ports(i: int, w: int) -> Seq<int>
    recommends
        1 <= w,
        0 <= i < w,
{
    Seq::new(worker_port_count(i, w) as nat, |k: int| i + 1 + k * w)
}

/// One worker's share of the scan: probe `start_port`, then keep adding
/// `stride` while the sum stays a valid port.
#[derive(Clone, Copy, PartialEq, Eq, Structural, Debug)]
pub struct WorkerAssignment {
    pub worker_index: u16,
    pub stride: u16,
    pub start_port: u16,
}

impl WorkerAssignment {
    /// The assignment is one of a scan with `stride` workers: the index is
    /// in range and the first port owned is `worker_index + 1`.
    pub open spec fn wf(self) -> bool {
        &&& 1 <= self.stride
        &&& self.worker_index < self.stride
        &&& self.start_port == self.worker_index + 1
    }

    /// The share of worker `worker_index` out of `worker_count`.
    pub fn new(worker_index: u16, worker_count: u16) -> (a: WorkerAssignment)
        requires
            worker_index < worker_count,
        ensures
            a.wf(),
            a.worker_index == worker_index,
            a.stride == worker_count,
            a.start_port == worker_index + 1,
    {
        WorkerAssignment { worker_index, stride: worker_count, start_port: worker_index + 1 }
    }

    /// The ports this worker probes, in probing order: exactly
    /// `worker_ports(worker_index, stride)`.
    pub fn ports(&self) -> (r: Vec<u16>)
        requires
            self.wf(),
        ensures
            r@.len() == worker_port_count(self.worker_index as int, self.stride as int),
            forall|k: int|
                0 <= k < r@.len() ==> r@[k] as int == worker_ports(
                    self.worker_index as int,
                    self.stride as int,
                )[k],
            forall|k: int| 0 <= k < r@.len() ==> 1 <= #[trigger] r@[k] <= MAX_PORT,
            strictly_sorted(r@),
    {
        let ghost gi: int = self.worker_index as int;
        let ghost gw: int = self.stride as int;
        let w32: u32 = self.stride as u32;
        let mut out: Vec<u16> = Vec::new();
        let mut port: u32 = self.worker_index as u32 + 1;
        proof {
            assert(0 * gw == 0) by (nonlinear_arith);
        }
        while port <= 65535
            invariant
                1 <= gw <= 65535,
                0 <= gi < gw,
                w32 == gw,
                port as int == gi + 1 + out@.len() * gw,
                out@.len() >= 1 ==> gi + 1 + (out@.len() - 1) * gw <= 65535,
                port <= 65535 + 65535,
                forall|k: int| 0 <= k < out@.len() ==> #[trigger] out@[k] as int == gi + 1 + k * gw,
                forall|k: int| 0 <= k < out@.len() ==> 1 <= #[trigger] out@[k] <= 65535,
            decreases 131071 - port as int,
        {
            out.push(port as u16);
            proof {
                let n = out@.len() as int;
                assert(n * gw == (n - 1) * gw + gw) by (nonlinear_arith);
            }
            port = port + w32;
        }
        proof {
            let n = out@.len() as int;
            if n == 0 {
                assert(0 * gw == 0) by (nonlinear_arith);
                assert(false);
            }
            let d = MAX_PORT - (gi + 1);
            assert(n * gw == (n - 1) * gw + gw) by (nonlinear_arith);
            let r = d - (n - 1) * gw;
            assert(0 <= r < gw);
            lemma_fundamental_div_mod_converse(d, gw, n - 1, r);
            assert(n - 1 == d / gw);
            assert forall|k1: int, k2: int| 0 <= k1 < k2 < out@.len() implies out@[k1]
                < out@[k2] by {
                lemma_worker_ports_increasing(gi, gw, k1, k2);
            };
        }
        out
    }
}

/// Ports owned by a worker are characterised by arithmetic alone: `p` is in
/// worker `i`'s sequence exactly when it is a valid port at least `i + 1`
/// whose distance from `i + 1` is a multiple of the stride.
pub proof fn lemma_worker_ports_contains(i: int, w: int, p: int)
    requires
        1 <= w <= 65535,
        0 <= i < w,
    ensures
        worker_ports(i, w).contains(p) <==> (i + 1 <= p <= MAX_PORT && (p - (i + 1)) % w == 0),
{
    let d = MAX_PORT - (i + 1);
    let s = worker_ports(i, w);
    lemma_div_pos_is_pos(d, w);
    if s.contains(p) {
        let k = choose|k: int| 0 <= k < s.len() && s[k] == p;
        assert(p == i + 1 + k * w);
        assert(k * w >= 0) by (nonlinear_arith)
            requires
                k >= 0,
                w >= 1,
        ;
        assert(k <= d / w);
        assert(k * w <= (d / w) * w) by (nonlinear_arith)
            requires
                0 <= k <= d / w,
                w >= 1,
        ;
        lemma_fundamental_div_mod(d, w);
        lemma_mod_bound(d, w);
        assert((d / w) * w == w * (d / w)) by (nonlinear_arith);
        assert(p <= MAX_PORT);
        lemma_fundamental_div_mod_converse(p - (i + 1), w, k, 0);
        assert((p - (i + 1)) % w == 0);
    }
    if i + 1 <= p <= MAX_PORT && (p - (i + 1)) % w == 0 {
        let q = (p - (i + 1)) / w;
        lemma_fundamental_div_mod(p - (i + 1), w);
        assert(p - (i + 1) == w * q);
        assert(w * q == q * w) by (nonlinear_arith);
        lemma_div_pos_is_pos(p - (i + 1), w);
        lemma_div_is_ordered(p - (i + 1), d, w);
        assert(0 <= q < s.len());
        assert(s[q] == p);
        assert(s.contains(p));
    }
}

/// Partition completeness, one half: every valid port is owned by the worker
/// whose index is `(p - 1) % w`, for any worker count `w` in `1..=65535`.
/// With `lemma_partition_disjoint` this says the union of the `w` workers'
/// sequences is exactly `{1, ..., 65535}`, each port appearing once.
pub proof fn lemma_partition_complete(w: int, p: int)
    requires
        1 <= w <= 65535,
        1 <= p <= MAX_PORT,
    ensures
        0 <= (p - 1) % w < w,
        worker_ports((p - 1) % w, w).contains(p),
{
    let i = (p - 1) % w;
    lemma_mod_bound(p - 1, w);
    lemma_fundamental_div_mod(p - 1, w);
    assert(p - (i + 1) == w * ((p - 1) / w));
    lemma_div_pos_is_pos(p - 1, w);
    let q = (p - 1) / w;
    assert(w * q >= 0) by (nonlinear_arith)
        requires
            q >= 0,
            w >= 1,
    ;
    assert(i + 1 <= p);
    assert(w * q == q * w) by (nonlinear_arith);
    lemma_fundamental_div_mod_converse(p - (i + 1), w, q, 0);
    assert((p - (i + 1)) % w == 0);
    lemma_worker_ports_contains(i, w, p);
}

/// Partition completeness, the other half: no port is owned by two distinct
/// workers of the same scan.
pub proof fn lemma_partition_disjoint(w: int, i1: int, i2: int, p: int)
    requires
        1 <= w <= 65535,
        0 <= i1 < w,
        0 <= i2 < w,
        worker_ports(i1, w).contains(p),
        worker_ports(i2, w).contains(p),
    ensures
        i1 == i2,
{
    lemma_worker_ports_contains(i1, w, p);
    lemma_worker_ports_contains(i2, w, p);
    let a = p - (i1 + 1);
    let b = p - (i2 + 1);
    lemma_fundamental_div_mod(a, w);
    lemma_fundamental_div_mod(b, w);
    let qa = a / w;
    let qb = b / w;
    assert(i2 - i1 == w * qa - w * qb);
    assert(w * qa - w * qb == w * (qa - qb)) by (nonlinear_arith);
    assert(qa - qb == 0) by (nonlinear_arith)
        requires
            w >= 1,
            -w < w * (qa - qb) < w,
    ;
}

/// Partition order: each worker's sequence is strictly increasing.
pub proof fn lemma_worker_ports_increasing(i: int, w: int, k1: int, k2: int)
    requires
        1 <= w <= 65535,
        0 <= i < w,
        0 <= k1 < k2 < worker_ports(i, w).len(),
    ensures
        worker_ports(i, w)[k1] < worker_ports(i, w)[k2],
{
    assert(k1 * w < k2 * w) by (nonlinear_arith)
        requires
            0 <= k1 < k2,
            w >= 1,
    ;
}

/// One assignment per worker index in `0..worker_count`, each with stride
/// `worker_count`. A worker count of zero yields no assignments at all.
pub fn plan(target: &ScanTarget) -> (r: Vec<WorkerAssignment>)
    ensures
        r@.len() == target.worker_count as int,
        forall|k: int|
            0 <= k < r@.len() ==> {
                &&& (#[trigger] r@[k]).wf()
                &&& r@[k].worker_index as int == k
                &&& r@[k].stride == target.worker_count
                &&& r@[k].start_port as int == k + 1
            },
{
    let mut out: Vec<WorkerAssignment> = Vec::new();
    let mut idx: u16 = 0;
    while idx < target.worker_count
        invariant
            idx <= target.worker_count,
            out@.len() == idx as int,
            forall|k: int|
                0 <= k < out@.len() ==> {
                    &&& (#[trigger] out@[k]).wf()
                    &&& out@[k].worker_index as int == k
                    &&& out@[k].stride == target.worker_count
                    &&& out@[k].start_port as int == k + 1
                },
        decreases target.worker_count - idx,
    {
        out.push(WorkerAssignment::new(idx, target.worker_count));
        idx += 1;
    }
    out
}

} // verus!
