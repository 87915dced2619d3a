//! The shared numeric target: a single accumulator with its textual
//! rendering, mutated only by play resolution.

use vstd::prelude::*;
use vstd::string::StringExecFns;

use crate::numtext::{dec_string, i64_to_string};

verus! {

/// The shared target value and its displayed text.
pub struct Target {
    pub value: i64,
    pub text: String,
}

/// The target's one invariant: the text is the exact decimal rendering of
/// the value.
pub open spec fn target_wf(t: Target) -> bool {
    t.text@ == dec_string(t.value as int)
}

impl Target {
    /// A fresh target at zero.
    pub fn new() -> (t: Target)
        ensures
            t.value == 0,
            target_wf(t),
    {
        let t = Target { value: 0, text: String::from_str("0") };
        proof {
            reveal_strlit("0");
            assert(t.text@ =~= dec_string(0));
        }
        t
    }

    /// Set the value and re-render the text.
    pub fn set_value(&mut self, v: i64)
        ensures
            final(self).value == v,
            target_wf(*final(self)),
    {
        self.value = v;
        self.text = i64_to_string(v);
    }
}

} // verus!
