//! The continuation protocol value: which operations to run next, in order.

use vstd::prelude::*;

verus! {

/// A tagged description of zero, one, or many follow-up operations.
///
/// When a sequence is present, its order is the order in which the
/// operations must be submitted to the owner thread.
pub enum Systems {
    Empty,
    One(u64),
    Many(Vec<u64>),
}

impl Systems {
    /// The ordered sequence of operation handles this value describes.
    pub open spec fn ops(self) -> Seq<u64> {
        match self {
            Systems::Empty => Seq::empty(),
            Systems::One(op) => seq![op],
            Systems::Many(v) => v@,
        }
    }

    /// Flatten this value into the ordered list of operation handles.
    pub fn into_ops(self) -> (r: Vec<u64>)
        ensures
            r@ == self.ops(),
    {
        match self {
            Systems::Empty => Vec::new(),
            Systems::One(op) => {
                let mut v: Vec<u64> = Vec::new();
                v.push(op);
                v
            },
            Systems::Many(v) => v,
        }
    }
}

impl From<u64> for Systems {
    fn from(op: u64) -> Self {
        Systems::One(op)
    }
}

impl vstd::std_specs::convert::FromSpecImpl<u64> for Systems {
    open spec fn obeys_from_spec() -> bool {
        true
    }

    open spec fn from_spec(op: u64) -> Self {
        Systems::One(op)
    }
}

impl From<Vec<u64>> for Systems {
    fn from(ops: Vec<u64>) -> Self {
        Systems::Many(ops)
    }
}

impl vstd::std_specs::convert::FromSpecImpl<Vec<u64>> for Systems {
    open spec fn obeys_from_spec() -> bool {
        true
    }

    open spec fn from_spec(ops: Vec<u64>) -> Self {
        Systems::Many(ops)
    }
}

/// The operation handles of a whole list of [`Systems`] values, concatenated
/// in list order.
pub open spec fn flatten_ops(items: Seq<Systems>) -> Seq<u64>
    decreases items.len(),
{
    if items.len() == 0 {
        Seq::empty()
    } else {
        items.first().ops() + flatten_ops(items.drop_first())
    }
}

/// Flatten a list of [`Systems`] values into one ordered list of operation
/// handles: the serialization order used when a group is submitted together.
pub fn flatten_systems(items: Vec<Systems>) -> (r: Vec<u64>)
    ensures
        r@ == flatten_ops(items@),
{
    let ghost all: Seq<Systems> = items@;
    let mut rest: Vec<Systems> = items;
    let mut r: Vec<u64> = Vec::new();
    proof {
        assert(r@ + flatten_ops(rest@) =~= flatten_ops(all));
    }
    while rest.len() > 0
        invariant
            r@ + flatten_ops(rest@) == flatten_ops(all),
        decreases rest.len(),
    {
        let ghost pre_rest: Seq<Systems> = rest@;
        let ghost pre_r: Seq<u64> = r@;
        let first: Systems = rest.remove(0);
        let mut ops: Vec<u64> = first.into_ops();
        r.append(&mut ops);
        proof {
            assert(rest@ =~= pre_rest.drop_first());
            assert(flatten_ops(pre_rest) == first.ops() + flatten_ops(rest@));
            assert(r@ + flatten_ops(rest@) =~= flatten_ops(all));
        }
    }
    proof {
        assert(flatten_ops(rest@) =~= Seq::<u64>::empty());
        assert(r@ =~= flatten_ops(all));
    }
    r
}

} // verus!
