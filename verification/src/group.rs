//! The model group.
//!
//! The protocol is generic over a cyclic group of prime order; this library
//! instantiates it with the additively written cyclic group of order
//! `GROUP_ORDER`, so a group element is identified by its discrete logarithm
//! with respect to the fixed generator.  Every group law is then an exact,
//! provable statement of scalar arithmetic, and "the x-coordinate of a point"
//! becomes the canonical representative of the element.

use vstd::prelude::*;
use crate::arith::{add_mod, mul_mod, sub_mod, GROUP_ORDER};

verus! {

/// An element of the model group, identified by its discrete logarithm.
#[derive(Clone, Copy, PartialEq, Eq, Structural, Debug)]
pub struct GroupElem {
    pub log: u64,
}

impl GroupElem {
    /// A well-formed element carries a reduced logarithm.
    pub open spec fn wf(self) -> bool {
        self.log < GROUP_ORDER
    }
}

/// The generator raised to `x`.
pub fn generator_pow(x: u64) -> (r: GroupElem)
    ensures
        r.log == x % GROUP_ORDER,
        r.wf(),
{
    GroupElem { log: x % GROUP_ORDER }
}

/// The group operation (the product of two points).
pub fn point_add(a: GroupElem, b: GroupElem) -> (r: GroupElem)
    requires
        a.wf(),
        b.wf(),
    ensures
        r.log == (a.log + b.log) % (GROUP_ORDER as int),
        r.wf(),
{
    GroupElem { log: add_mod(a.log, b.log, GROUP_ORDER) }
}

/// The product of a point with the inverse of another.
pub fn point_sub(a: GroupElem, b: GroupElem) -> (r: GroupElem)
    requires
        a.wf(),
        b.wf(),
    ensures
        r.log == (a.log + GROUP_ORDER - b.log) % (GROUP_ORDER as int),
        r.wf(),
{
    GroupElem { log: sub_mod(a.log, b.log, GROUP_ORDER) }
}

/// A point raised to a scalar.
pub fn point_scale(a: GroupElem, k: u64) -> (r: GroupElem)
    requires
        a.wf(),
        k < GROUP_ORDER,
    ensures
        r.log == (a.log * k) % (GROUP_ORDER as int),
        r.wf(),
{
    GroupElem { log: mul_mod(a.log, k, GROUP_ORDER) }
}

/// The logarithms of a sequence of points.
pub open spec fn point_logs(s: Seq<GroupElem>) -> Seq<u64> {
    s.map_values(|p: GroupElem| p.log)
}

/// The product of a vector of points: its logarithm is the sum of theirs.
pub fn sum_points(v: &Vec<GroupElem>) -> (r: GroupElem)
    requires
        forall|i: int| 0 <= i < v@.len() ==> (#[trigger] v@[i]).wf(),
    ensures
        r.log == crate::arith::sum_int(point_logs(v@)) % (GROUP_ORDER as int),
        r.wf(),
{
    let mut logs: Vec<u64> = Vec::new();
    let mut k: usize = 0;
    while k < v.len()
        invariant
            k <= v@.len(),
            logs@.len() == k,
            forall|i: int| 0 <= i < v@.len() ==> (#[trigger] v@[i]).wf(),
            forall|i: int| 0 <= i < k ==> logs@[i] == v@[i].log,
        decreases v.len() - k,
    {
        logs.push(v[k].log);
        k = k + 1;
    }
    proof {
        assert(logs@ =~= point_logs(v@));
        assert(forall|i: int| 0 <= i < logs@.len() ==> logs@[i] < GROUP_ORDER);
    }
    GroupElem { log: crate::arith::sum_mod_order(&logs) }
}

/// The x-coordinate of a point, reduced modulo the group order: in the model
/// group this is the canonical representative of the element.
pub fn x_coord(a: GroupElem) -> (r: u64)
    requires
        a.wf(),
    ensures
        r == a.log,
{
    a.log
}

} // verus!
