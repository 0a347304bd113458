//! The data-access capability, its production implementation, and the
//! consumer that turns a lookup outcome into a status message.

use vstd::prelude::*;
use vstd::string::StringExecFns;
use crate::decimal::decimal_rep;
use crate::decimal::u32_to_decimal;

verus! {

/// The data-access capability: fetch a display name for a numeric
/// identifier. Absence is a normal outcome, never an error.
pub trait Database {
    /// The mathematical lookup that this implementation realises.
    spec fn spec_get_user(&self, id: u32) -> Option<Seq<char>>;

    /// Fetch the display name for `id`: exactly what `spec_get_user` says.
    fn get_user(&self, id: u32) -> (r: Option<String>)
        ensures
            r.deep_view() == self.spec_get_user(id),
    ;
}

/// The production implementation: stateless, it derives the display name
/// from the identifier itself and is present for every identifier.
pub struct RealDatabase;

impl Database for RealDatabase {
    open spec fn spec_get_user(&self, id: u32) -> Option<Seq<char>> {
        Some("User "@ + decimal_rep(id as nat))
    }

    fn get_user(&self, id: u32) -> (r: Option<String>) {
        let mut name = "User ".to_owned();
        let digits = u32_to_decimal(id);
        name.append(digits.as_str());
        Some(name)
    }
}

/// The real implementation answers every identifier: its lookup is always
/// present, and the display name is the fixed prefix followed by the
/// identifier in decimal.
pub proof fn lemma_real_lookup_present(db: RealDatabase, id: u32)
    ensures
        db.spec_get_user(id) matches Some(name) && name == "User "@ + decimal_rep(id as nat),
{
}

/// The real implementation's display name encodes the identifier: distinct
/// identifiers never share a display name.
pub proof fn lemma_real_name_encodes_id(db: RealDatabase, a: u32, b: u32)
    requires
        db.spec_get_user(a) == db.spec_get_user(b),
    ensures
        a == b,
{
    let pre = "User "@;
    let ra = decimal_rep(a as nat);
    let rb = decimal_rep(b as nat);
    assert(pre + ra == pre + rb);
    assert forall|k: int| 0 <= k < ra.len() implies ra[k] == rb[k] by {
        assert((pre + ra)[pre.len() + k] == ra[k]);
        assert((pre + rb)[pre.len() + k] == rb[k]);
    }
    assert(ra =~= rb);
    crate::decimal::lemma_decimal_rep_injective(a as nat, b as nat);
}

/// Looks `user_id` up through `db` and reports the outcome: the found
/// message carries the looked-up name, the not-found message is fixed.
pub fn process_user<D: Database>(db: &D, user_id: u32) -> (r: String)
    ensures
        db.spec_get_user(user_id) matches Some(name) ==> r@ == "User found: "@ + name,
        db.spec_get_user(user_id) is None ==> r@ == "User not found"@,
{
    match db.get_user(user_id) {
        Some(name) => {
            let mut message = "User found: ".to_owned();
            message.append(name.as_str());
            message
        },
        None => "User not found".to_owned(),
    }
}

} // verus!
