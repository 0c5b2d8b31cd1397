//! The fragment: an immutable, content-addressed blob, typically a
//! document body.  Its byte form is the payload itself.

use vstd::prelude::*;

verus! {

/// An opaque byte payload.
#[derive(Debug)]
pub struct Fragment {
    pub data: Vec<u8>,
}

impl View for Fragment {
    type V = Seq<u8>;

    open spec fn view(&self) -> Seq<u8> {
        self.data@
    }
}

impl Fragment {
    /// Wraps a byte payload.
    pub fn new(data: Vec<u8>) -> (r: Self)
        ensures
            r@ == data@,
    {
        Fragment { data }
    }

    /// Wraps the UTF-8 bytes of a text.
    pub fn from_str(text: &str) -> (r: Self)
        ensures
            r@ == vstd::utf8::encode_utf8(text@),
    {
        Fragment { data: vstd::slice::slice_to_vec(text.as_bytes()) }
    }

    /// The byte form of a fragment is the payload itself.
    pub fn to_bytes(&self) -> (r: Vec<u8>)
        ensures
            r@ == self@,
    {
        self.data.clone()
    }

    /// Reads a fragment back from its byte form: the whole byte string.
    pub fn from_bytes(bytes: Vec<u8>) -> (r: Self)
        ensures
            r@ == bytes@,
    {
        Fragment { data: bytes }
    }
}

impl Clone for Fragment {
    fn clone(&self) -> (r: Self)
        ensures
            r@ == self@,
    {
        Fragment { data: self.data.clone() }
    }
}

impl PartialEq for Fragment {
    fn eq(&self, other: &Self) -> (r: bool) {
        crate::codec::bytes_eq(&self.data, &other.data)
    }
}

impl vstd::std_specs::cmp::PartialEqSpecImpl for Fragment {
    open spec fn obeys_eq_spec() -> bool {
        true
    }

    open spec fn eq_spec(&self, other: &Self) -> bool {
        self@ == other@
    }
}

} // verus!
