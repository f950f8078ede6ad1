//! Tracking of the intermediate files a fallback pipeline produces: every
//! path added here is to be deleted, best-effort, when the pipeline ends, on
//! the success path and the failure path alike. The deletion itself is the
//! caller's; this holds the list.

use vstd::prelude::*;
use crate::args::strs;

verus! {

/// The paths of the intermediate outputs tracked for deletion, in the order
/// they were added.
#[derive(Debug)]
pub struct DeleteOutputs {
    pub outputs: Vec<String>,
}

impl View for DeleteOutputs {
    type V = Seq<Seq<char>>;

    open spec fn view(&self) -> Seq<Seq<char>> {
        strs(self.outputs@)
    }
}

impl DeleteOutputs {
    /// An empty tracker, sized for the expected number of outputs.
    pub fn with_capacity(capacity: usize) -> (r: Self)
        ensures
            r@ == Seq::<Seq<char>>::empty(),
    {
        let r = DeleteOutputs { outputs: Vec::with_capacity(capacity) };
        proof {
            assert(r@ =~= Seq::<Seq<char>>::empty());
        }
        r
    }

    /// Tracks one more produced path.
    pub fn add_output(&mut self, output: String)
        ensures
            final(self)@ == old(self)@.push(output@),
    {
        let ghost ov = output@;
        self.outputs.push(output);
        proof {
            assert(self@ =~= old(self)@.push(ov));
        }
    }

    /// The tracked paths, for the teardown that deletes them.
    pub fn outputs(&self) -> (r: &Vec<String>)
        ensures
            strs(r@) == self@,
    {
        &self.outputs
    }
}

} // verus!
