//! The closed set of HTTP methods the engine routes.

use crate::matcher::ranges_equal;
use vstd::prelude::*;
use vstd::string::StringSliceAdditionalSpecFns;
use vstd::utf8::encode_utf8_decode_utf8;

verus! {

/// An HTTP method of the closed set. Each method has a small integer id,
/// which is the form in which it appears in route keys.
#[derive(Clone, Copy, Debug, PartialEq, Eq, Structural)]
pub enum Method {
    Get,
    Post,
    Put,
    Delete,
    Patch,
}

/// The method with the given id, if the id is one of the closed set.
pub open spec fn method_of_id(id: u8) -> Option<Method> {
    if id == 0 {
        Some(Method::Get)
    } else if id == 1 {
        Some(Method::Post)
    } else if id == 2 {
        Some(Method::Put)
    } else if id == 3 {
        Some(Method::Delete)
    } else if id == 4 {
        Some(Method::Patch)
    } else {
        None
    }
}

/// The method whose id is written in the text, if the text is one of `0`
/// to `4`.
pub open spec fn method_of_id_text(text: Seq<char>) -> Option<Method> {
    if text == "0"@ {
        Some(Method::Get)
    } else if text == "1"@ {
        Some(Method::Post)
    } else if text == "2"@ {
        Some(Method::Put)
    } else if text == "3"@ {
        Some(Method::Delete)
    } else if text == "4"@ {
        Some(Method::Patch)
    } else {
        None
    }
}

/// The method with the given upper-case name, if the name is one of the
/// closed set.
pub open spec fn method_of_name(name: Seq<char>) -> Option<Method> {
    if name == "GET"@ {
        Some(Method::Get)
    } else if name == "POST"@ {
        Some(Method::Post)
    } else if name == "PUT"@ {
        Some(Method::Put)
    } else if name == "DELETE"@ {
        Some(Method::Delete)
    } else if name == "PATCH"@ {
        Some(Method::Patch)
    } else {
        None
    }
}

/// Whether two strings are the same text.
pub fn same_text(a: &str, b: &str) -> (same: bool)
    ensures
        same == (a@ == b@),
{
    let left = a.as_bytes();
    let right = b.as_bytes();
    proof {
        encode_utf8_decode_utf8(a@);
        encode_utf8_decode_utf8(b@);
        assert(left@.subrange(0, left@.len() as int) =~= left@);
        assert(right@.subrange(0, right@.len() as int) =~= right@);
    }
    ranges_equal(left, 0, left.len(), right, 0, right.len())
}

impl Method {
    /// The id of this method: 0 for GET, 1 for POST, 2 for PUT, 3 for DELETE,
    /// 4 for PATCH.
    pub open spec fn spec_id(&self) -> u8 {
        match *self {
            Method::Get => 0,
            Method::Post => 1,
            Method::Put => 2,
            Method::Delete => 3,
            Method::Patch => 4,
        }
    }

    /// The upper-case name of this method.
    pub open spec fn spec_name(&self) -> Seq<char> {
        match *self {
            Method::Get => "GET"@,
            Method::Post => "POST"@,
            Method::Put => "PUT"@,
            Method::Delete => "DELETE"@,
            Method::Patch => "PATCH"@,
        }
    }

    /// Whether requests of this method carry a body (POST, PUT, PATCH).
    pub open spec fn spec_carries_body(&self) -> bool {
        *self == Method::Post || *self == Method::Put || *self == Method::Patch
    }

    /// The method with the given id. Ids above 4 name no method.
    pub fn new(id: u8) -> (method: Method)
        requires
            id <= 4,
        ensures
            method_of_id(id) == Some(method),
            method.spec_id() == id,
    {
        if id == 0 {
            Method::Get
        } else if id == 1 {
            Method::Post
        } else if id == 2 {
            Method::Put
        } else if id == 3 {
            Method::Delete
        } else {
            Method::Patch
        }
    }

    /// The method with the given id, or `None` for an id outside the set.
    pub fn from_id(id: u8) -> (method: Option<Method>)
        ensures
            method == method_of_id(id),
    {
        if id <= 4 {
            Some(Method::new(id))
        } else {
            None
        }
    }

    #[verifier::when_used_as_spec(spec_id)]
    pub fn id(&self) -> (id: u8)
        ensures
            id == self.spec_id(),
            id <= 4,
    {
        match self {
            Method::Get => 0,
            Method::Post => 1,
            Method::Put => 2,
            Method::Delete => 3,
            Method::Patch => 4,
        }
    }

    /// The method whose id is written in the text, as it stands at the head
    /// of a route key, or `None` for any other text.
    pub fn from_id_text(text: &str) -> (method: Option<Method>)
        ensures
            method == method_of_id_text(text@),
    {
        if same_text(text, "0") {
            Some(Method::Get)
        } else if same_text(text, "1") {
            Some(Method::Post)
        } else if same_text(text, "2") {
            Some(Method::Put)
        } else if same_text(text, "3") {
            Some(Method::Delete)
        } else if same_text(text, "4") {
            Some(Method::Patch)
        } else {
            None
        }
    }

    /// The method with the given upper-case name, or `None` for a name
    /// outside the set.
    pub fn from_name(name: &str) -> (method: Option<Method>)
        ensures
            method == method_of_name(name@),
    {
        if same_text(name, "GET") {
            Some(Method::Get)
        } else if same_text(name, "POST") {
            Some(Method::Post)
        } else if same_text(name, "PUT") {
            Some(Method::Put)
        } else if same_text(name, "DELETE") {
            Some(Method::Delete)
        } else if same_text(name, "PATCH") {
            Some(Method::Patch)
        } else {
            None
        }
    }

    /// The upper-case name of this method.
    pub fn name(&self) -> (name: &'static str)
        ensures
            name@ == self.spec_name(),
    {
        match self {
            Method::Get => "GET",
            Method::Post => "POST",
            Method::Put => "PUT",
            Method::Delete => "DELETE",
            Method::Patch => "PATCH",
        }
    }

    /// Whether requests of this method carry a body.
    pub fn carries_body(&self) -> (carries: bool)
        ensures
            carries == self.spec_carries_body(),
    {
        match self {
            Method::Post | Method::Put | Method::Patch => true,
            Method::Get | Method::Delete => false,
        }
    }
}

/// Every method is the method of its own name.
pub proof fn lemma_method_name_round_trip(method: Method)
    ensures
        method_of_name(method.spec_name()) == Some(method),
{
    reveal_strlit("GET");
    reveal_strlit("POST");
    reveal_strlit("PUT");
    reveal_strlit("DELETE");
    reveal_strlit("PATCH");
    assert("GET"@.len() == 3 && "GET"@[0] == 'G');
    assert("PUT"@.len() == 3 && "PUT"@[0] == 'P');
    assert("POST"@.len() == 4);
    assert("PATCH"@.len() == 5);
    assert("DELETE"@.len() == 6);
}

/// Every method is the method of its own id, and every id up to 4 is the id
/// of its method.
pub proof fn lemma_method_id_round_trip(method: Method, id: u8)
    ensures
        method_of_id(method.spec_id()) == Some(method),
        method_of_id(id) matches Some(m) ==> m.spec_id() == id,
        method_of_id(id) is Some <==> id <= 4,
{
}

} // verus!
