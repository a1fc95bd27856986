//! OMT endpoints and the choice the OMT input task makes among discovered
//! addresses.

use crate::text;
use crate::text::contains_str;
use vstd::prelude::*;

verus! {

pub enum Endpoint {
    /// Connect to an OMT source whose discovery address contains this
    /// substring (addresses look like `"HOSTNAME (Name)"`).
    Receiver { address: String },
    /// Advertise a new OMT output with this name.
    Sender { name: String },
}

/// The first discovered address containing `wanted`.
pub fn find_address_by_name(addresses: &Vec<String>, wanted: &str) -> (r: Option<usize>)
    ensures
        match r {
            Some(i) => i < addresses@.len() && text::contains_text(addresses@[i as int]@, wanted@)
                && forall|j: int|
                0 <= j < i ==> !text::contains_text(#[trigger] addresses@[j]@, wanted@),
            None => forall|j: int|
                0 <= j < addresses@.len() ==> !text::contains_text(
                    #[trigger] addresses@[j]@,
                    wanted@,
                ),
        },
{
    let mut i: usize = 0;
    while i < addresses.len()
        invariant
            i <= addresses@.len(),
            forall|j: int| 0 <= j < i ==> !text::contains_text(#[trigger] addresses@[j]@, wanted@),
        decreases addresses@.len() - i,
    {
        if contains_str(addresses[i].as_str(), wanted) {
            return Some(i);
        }
        i = i + 1;
    }
    None
}

} // verus!
