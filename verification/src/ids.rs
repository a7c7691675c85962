//! Universally unique identifiers as the engine hands them out.
//!
//! The engine reports identifiers as text; this layer validates that text
//! once, when it crosses the boundary, and from then on carries the
//! identifier as its sixteen raw bytes.  A string that does not parse as a
//! UUID is a local parse failure, not an engine error.

use vstd::prelude::*;

verus! {

/// The number of bytes of a UUID.
pub const UUID_LEN: usize = 16;

/// What the outside UUID parser yields for a string: the sixteen bytes of
/// the identifier, or nothing when the string is not a well-formed UUID.
/// The result depends on the characters of the string alone.
pub uninterp spec fn uuid_parse(s: Seq<char>) -> Option<Seq<u8>>;

/// Relies on `uuid::Uuid::parse_str` and `uuid::Uuid::as_bytes`: parsing is
/// a function of the input characters alone, and a parsed UUID is exactly
/// sixteen bytes.
#[verifier::external_body]
fn parse_uuid_bytes(s: &str) -> (r: Option<Vec<u8>>)
    ensures
        r is Some <==> uuid_parse(s@) is Some,
        r is Some ==> r.unwrap()@ == uuid_parse(s@).unwrap() && r.unwrap()@.len() == UUID_LEN,
{
    match uuid::Uuid::parse_str(s) {
        Ok(parsed) => Some(parsed.as_bytes().to_vec()),
        Err(_) => None,
    }
}

/// A universally unique identifier, held as its sixteen raw bytes.
///
/// The view of a `Uuid` is its byte sequence.
#[derive(Debug)]
pub struct Uuid {
    bytes: Vec<u8>,
}

impl View for Uuid {
    type V = Seq<u8>;

    closed spec fn view(&self) -> Seq<u8> {
        self.bytes@
    }
}

impl Uuid {
    /// A `Uuid` always holds exactly sixteen bytes.
    pub open spec fn wf(self) -> bool {
        self@.len() == UUID_LEN
    }

    /// Build an identifier from its raw bytes; rejects any byte count other
    /// than sixteen.
    pub fn from_bytes(bytes: Vec<u8>) -> (r: Option<Uuid>)
        ensures
            r is Some <==> bytes@.len() == UUID_LEN,
            r is Some ==> r.unwrap()@ == bytes@ && r.unwrap().wf(),
    {
        if bytes.len() == UUID_LEN {
            Some(Uuid { bytes })
        } else {
            None
        }
    }

    /// Parse an identifier from the text the engine reported.
    ///
    /// Returns exactly the bytes the outside parser yields for this text,
    /// and succeeds exactly when that parser accepts it.
    pub fn parse(s: &str) -> (r: Option<Uuid>)
        ensures
            r is Some <==> uuid_parse(s@) is Some,
            r is Some ==> r.unwrap()@ == uuid_parse(s@).unwrap() && r.unwrap().wf(),
    {
        match parse_uuid_bytes(s) {
            Some(bytes) => Some(Uuid { bytes }),
            None => None,
        }
    }

    /// The raw bytes of the identifier.
    pub fn as_bytes(&self) -> (r: &Vec<u8>)
        ensures
            r@ == self@,
    {
        &self.bytes
    }

    /// Whether any byte is NUL; such an identifier cannot travel through a
    /// NUL-terminated native string.
    pub fn has_nul_byte(&self) -> (r: bool)
        ensures
            r == self@.contains(0u8),
    {
        let n = self.bytes.len();
        let mut i: usize = 0;
        while i < n
            invariant
                n == self@.len(),
                0 <= i <= n,
                forall|j: int| 0 <= j < i ==> self@[j] != 0u8,
            decreases n - i,
        {
            if self.bytes[i] == 0u8 {
                return true;
            }
            i = i + 1;
        }
        false
    }
}

impl Clone for Uuid {
    /// A clone carries the same bytes.
    fn clone(&self) -> (r: Uuid)
        ensures
            r@ == self@,
    {
        Uuid { bytes: clone_bytes(&self.bytes) }
    }
}

/// An exact copy of a byte vector.
fn clone_bytes(v: &Vec<u8>) -> (r: Vec<u8>)
    ensures
        r@ == v@,
{
    let mut out: Vec<u8> = Vec::new();
    let n = v.len();
    let mut i: usize = 0;
    while i < n
        invariant
            n == v@.len(),
            0 <= i <= n,
            out@ == v@.subrange(0, i as int),
        decreases n - i,
    {
        out.push(v[i]);
        i = i + 1;
    }
    proof {
        assert(out@ =~= v@);
    }
    out
}

} // verus!
