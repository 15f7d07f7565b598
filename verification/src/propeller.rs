//! Which nodes of a loaded plane model are propellers that should spin.

use vstd::prelude::*;

use crate::text::{chars_equal, chars_of, contains_chars, contains_text};

verus! {

/// The propeller node of the airplane model, which has no telling name.
pub open spec fn airplane_propeller_node_name() -> Seq<char> {
    "Cylinder.001"@
}

/// Any node whose name holds this is a propeller.
pub open spec fn propeller_node_name_part() -> Seq<char> {
    "Propeller"@
}

/// Whether a model node with this name spins as a propeller: it is the
/// airplane's propeller node, or its name contains `Propeller`.
pub fn propeller_is_animated_name(name: &str) -> (animated: bool)
    ensures
        animated == (name@ == airplane_propeller_node_name() || contains_text(
            name@,
            propeller_node_name_part(),
        )),
{
    let name_chars = chars_of(name);
    let airplane_propeller = chars_of("Cylinder.001");
    let propeller_part = chars_of("Propeller");
    chars_equal(name_chars.as_slice(), airplane_propeller.as_slice()) || contains_chars(
        name_chars.as_slice(),
        propeller_part.as_slice(),
    )
}

} // verus!
