use vstd::prelude::*;
use vstd::string::*;

verus! {

/// A mail address split into its local part and its domain part.
#[derive(Clone, Debug, PartialEq, Eq, Hash)]
pub struct Email {
    pub local_part: String,
    pub domain_part: String,
}

/// Canonical text of an address: `local "@" domain`.
pub open spec fn address_text(local: Seq<char>, domain: Seq<char>) -> Seq<char> {
    local + "@"@ + domain
}

impl View for Email {
    type V = (Seq<char>, Seq<char>);

    open spec fn view(&self) -> (Seq<char>, Seq<char>) {
        (self.local_part@, self.domain_part@)
    }
}

impl Email {
    pub fn new(local_part: String, domain_part: String) -> (r: Email)
        ensures
            r@ == (local_part@, domain_part@),
    {
        Email { local_part, domain_part }
    }

    /// The canonical text `local@domain`.
    pub fn to_string(&self) -> (r: String)
        ensures
            r@ == address_text(self.local_part@, self.domain_part@),
    {
        let mut res = self.local_part.clone();
        res.append("@");
        res.append(self.domain_part.as_str());
        res
    }

    /// Structural equality of two addresses.
    pub fn same(&self, other: &Email) -> (r: bool)
        ensures
            r == (self@ == other@),
    {
        self.local_part == other.local_part && self.domain_part == other.domain_part
    }
}

} // verus!
