//! Structured acknowledgements of successful operations.
//!
//! A successful mutating call returns a list of string attributes: an
//! operation tag and the affected identifiers, rendered in decimal.

use vstd::prelude::*;

verus! {

/// One key/value attribute of an acknowledgement.
#[derive(PartialEq, Debug)]
pub struct Attribute {
    pub key: String,
    pub value: String,
}

impl View for Attribute {
    type V = (Seq<char>, Seq<char>);

    open spec fn view(&self) -> (Seq<char>, Seq<char>) {
        (self.key@, self.value@)
    }
}

/// The acknowledgement a successful operation returns.
#[derive(PartialEq, Debug)]
pub struct Response {
    pub attributes: Vec<Attribute>,
}

impl View for Response {
    type V = Seq<(Seq<char>, Seq<char>)>;

    open spec fn view(&self) -> Seq<(Seq<char>, Seq<char>)> {
        self.attributes@.map_values(|a: Attribute| a@)
    }
}

impl Response {
    /// An acknowledgement with no attributes yet.
    pub fn new() -> (r: Response)
        ensures
            r@ == Seq::<(Seq<char>, Seq<char>)>::empty(),
    {
        let r = Response { attributes: Vec::new() };
        proof {
            assert(r@ =~= Seq::<(Seq<char>, Seq<char>)>::empty());
        }
        r
    }

    /// The acknowledgement extended by one attribute.
    pub fn add_attribute(self, key: &str, value: String) -> (r: Response)
        ensures
            r@ == self@.push((key@, value@)),
    {
        let mut attributes = self.attributes;
        let ghost before = attributes@;
        attributes.push(Attribute { key: key.to_owned(), value });
        let r = Response { attributes };
        proof {
            assert(r@ =~= before.map_values(|a: Attribute| a@).push(r.attributes@.last()@));
        }
        r
    }
}

} // verus!
