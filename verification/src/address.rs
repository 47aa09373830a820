use vstd::prelude::*;

verus! {

/// The identity of a party: an owner, a hunter or a token.
///
/// The ledger only ever asks whether two identities are the same, so an
/// address is its textual key and nothing more.
#[derive(Debug)]
pub struct Address {
    key: String,
}

impl View for Address {
    type V = Seq<char>;

    closed spec fn view(&self) -> Seq<char> {
        self.key@
    }
}

impl Address {
    /// The address with the given key.
    pub fn new(key: String) -> (a: Address)
        ensures
            a@ == key@,
    {
        Address { key }
    }

    /// The address with the given key.
    pub fn from_str(key: &str) -> (a: Address)
        ensures
            a@ == key@,
    {
        Address { key: key.to_owned() }
    }

    /// The key of this address.
    pub fn as_str(&self) -> (key: &str)
        ensures
            key@ == self@,
    {
        self.key.as_str()
    }
}

impl Clone for Address {
    fn clone(&self) -> (a: Address)
        ensures
            a == *self,
    {
        Address { key: self.key.clone() }
    }
}

impl PartialEq for Address {
    fn eq(&self, other: &Address) -> (same: bool) {
        self.key == other.key
    }
}

impl Eq for Address {
}

impl vstd::std_specs::cmp::PartialEqSpecImpl for Address {
    open spec fn obeys_eq_spec() -> bool {
        true
    }

    open spec fn eq_spec(&self, other: &Address) -> bool {
        self@ == other@
    }
}

} // verus!
