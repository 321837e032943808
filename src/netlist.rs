//! Netlist token helpers.

use vstd::prelude::*;

verus! {

/// The trailing token that asks for an element's current to stay explicit.
pub const GROUP2_MARKER: &'static str = "G2";

/// Check whether the last token is the group 2 marker, and if so remove it.
pub fn in_group2(tokens: &mut Vec<&str>) -> (r: bool)
    requires
        old(tokens)@.len() > 0,
    ensures
        r == (old(tokens)@.last()@ == GROUP2_MARKER@),
        final(tokens)@ == if r {
            old(tokens)@.drop_last()
        } else {
            old(tokens)@
        },
{
    let last = tokens[tokens.len() - 1].to_owned();
    if last == GROUP2_MARKER.to_owned() {
        tokens.pop();
        true
    } else {
        false
    }
}

} // verus!
