//! Snapshots of HTTP responses that can be stored and replayed verbatim.

use vstd::prelude::*;
use vstd::string::StringSliceAdditionalSpecFns;

verus! {

/// One response header: its name and the raw bytes of its value.
#[derive(Debug)]
pub struct HeaderPair {
    pub name: String,
    pub value: Vec<u8>,
}

/// A response as it is kept in the ledger: status code, headers in their
/// order, and the body bytes.
#[derive(Debug)]
pub struct SavedResponse {
    pub status_code: u16,
    pub headers: Vec<HeaderPair>,
    pub body: Vec<u8>,
}

/// What a saved response is, as plain mathematical values.
pub struct ResponseModel {
    pub status_code: u16,
    pub headers: Seq<(Seq<char>, Seq<u8>)>,
    pub body: Seq<u8>,
}

impl View for HeaderPair {
    type V = (Seq<char>, Seq<u8>);

    open spec fn view(&self) -> (Seq<char>, Seq<u8>) {
        (self.name@, self.value@)
    }
}

impl View for SavedResponse {
    type V = ResponseModel;

    open spec fn view(&self) -> ResponseModel {
        ResponseModel {
            status_code: self.status_code,
            headers: Seq::new(self.headers@.len(), |i: int| self.headers@[i]@),
            body: self.body@,
        }
    }
}

/// The status code of a "see other" redirect.
pub const SEE_OTHER: u16 = 303;

/// The redirect whose `location` header holds `location_bytes`: status 303,
/// that single header, and no body.
pub open spec fn see_other_model(location_bytes: Seq<u8>) -> ResponseModel {
    ResponseModel {
        status_code: SEE_OTHER,
        headers: seq![("location"@, location_bytes)],
        body: Seq::empty(),
    }
}

/// A copy of `source`, byte for byte.
pub fn copy_bytes(source: &Vec<u8>) -> (copy: Vec<u8>)
    ensures
        copy@ == source@,
{
    let mut copy: Vec<u8> = Vec::new();
    let mut i: usize = 0;
    while i < source.len()
        invariant
            i <= source.len(),
            copy@ == source@.subrange(0, i as int),
        decreases source.len() - i,
    {
        copy.push(source[i]);
        i += 1;
        assert(copy@ =~= source@.subrange(0, i as int));
    }
    assert(source@.subrange(0, source@.len() as int) =~= source@);
    copy
}

/// Whether two byte strings are the same.
pub fn bytes_equal(left: &Vec<u8>, right: &Vec<u8>) -> (same: bool)
    ensures
        same == (left@ == right@),
{
    if left.len() != right.len() {
        return false;
    }
    let mut i: usize = 0;
    while i < left.len()
        invariant
            i <= left.len(),
            left.len() == right.len(),
            left@.subrange(0, i as int) == right@.subrange(0, i as int),
        decreases left.len() - i,
    {
        if left[i] != right[i] {
            return false;
        }
        i += 1;
        assert(left@.subrange(0, i as int) =~= left@.subrange(0, i - 1).push(left@[i - 1]));
        assert(right@.subrange(0, i as int) =~= right@.subrange(0, i - 1).push(right@[i - 1]));
    }
    assert(left@.subrange(0, left@.len() as int) =~= left@);
    assert(right@.subrange(0, right@.len() as int) =~= right@);
    true
}

impl HeaderPair {
    /// A header with the same name and value.
    pub fn duplicate(&self) -> (copy: HeaderPair)
        ensures
            copy@ == self@,
    {
        HeaderPair { name: self.name.clone(), value: copy_bytes(&self.value) }
    }

    /// Whether two headers agree in name and value.
    pub fn same_as(&self, other: &HeaderPair) -> (same: bool)
        ensures
            same == (self@ == other@),
    {
        self.name == other.name && bytes_equal(&self.value, &other.value)
    }
}

impl SavedResponse {
    /// The redirect that acknowledges a request: status 303, one `location`
    /// header that carries `location`, and an empty body.
    pub fn see_other(location: &str) -> (response: SavedResponse)
        ensures
            response@ == see_other_model(location.spec_bytes()),
    {
        let mut headers: Vec<HeaderPair> = Vec::new();
        headers.push(
            HeaderPair { name: String::from_str("location"), value: location.as_bytes_vec() },
        );
        let response = SavedResponse { status_code: SEE_OTHER, headers, body: Vec::new() };
        assert(response@.headers =~= seq![("location"@, location.spec_bytes())]);
        response
    }

    /// A snapshot with the same status, headers and body.
    pub fn duplicate(&self) -> (copy: SavedResponse)
        ensures
            copy@ == self@,
    {
        let mut headers: Vec<HeaderPair> = Vec::new();
        let mut i: usize = 0;
        while i < self.headers.len()
            invariant
                i <= self.headers.len(),
                headers@.len() == i,
                forall|k: int| 0 <= k < i ==> (#[trigger] headers@[k])@ == self.headers@[k]@,
            decreases self.headers.len() - i,
        {
            headers.push(self.headers[i].duplicate());
            i += 1;
        }
        let copy = SavedResponse {
            status_code: self.status_code,
            headers,
            body: copy_bytes(&self.body),
        };
        assert(copy@.headers =~= self@.headers);
        copy
    }

    /// Whether two snapshots are identical: same status, same headers in the
    /// same order, same body bytes.
    pub fn same_as(&self, other: &SavedResponse) -> (same: bool)
        ensures
            same == (self@ == other@),
    {
        if self.status_code != other.status_code {
            return false;
        }
        if self.headers.len() != other.headers.len() {
            assert(self@.headers.len() != other@.headers.len());
            return false;
        }
        let mut i: usize = 0;
        while i < self.headers.len()
            invariant
                i <= self.headers.len(),
                self.headers.len() == other.headers.len(),
                forall|k: int| 0 <= k < i ==> (#[trigger] self.headers@[k])@ == other.headers@[k]@,
            decreases self.headers.len() - i,
        {
            if !self.headers[i].same_as(&other.headers[i]) {
                assert(self@.headers[i as int] != other@.headers[i as int]);
                return false;
            }
            i += 1;
        }
        assert(self@.headers =~= other@.headers);
        bytes_equal(&self.body, &other.body)
    }
}

} // verus!
