//! Transaction runner: declarative checks on a received response and the
//! classification of each request into exactly one outcome.
//!
//! The HTTP collaborator performs the request and hands the result in as
//! plain values (`ResponseData`); the runner never talks to the network. It
//! emits exactly one `RequestMetric` per request, and a failed check is a
//! validation failure, distinct from a transport-level error — neither
//! crashes the virtual user.

use vstd::prelude::*;
use crate::metrics::Method;
use crate::metrics::Outcome;
use crate::metrics::RequestMetric;

verus! {

/// What the HTTP collaborator hands back for one request, reduced to plain
/// values.
pub struct ResponseData {
    /// Whether a usable response arrived at all; `false` stands for a
    /// connection or DNS failure.
    pub transport_ok: bool,
    pub status: u16,
    /// Response body bytes.
    pub body: Vec<u8>,
    /// Names of the response headers, as bytes.
    pub headers: Vec<Vec<u8>>,
    /// Wall time the request took, in milliseconds.
    pub elapsed: u64,
}

/// Declarative checks on one response: expected status code, required
/// substring in the body, required header. Absent checks always pass.
pub struct Validation {
    pub expected_status: Option<u16>,
    pub required_text: Option<Vec<u8>>,
    pub required_header: Option<Vec<u8>>,
}

/// `needle` occurs in `hay` starting at position `i`.
pub open spec fn substring_at(hay: Seq<u8>, needle: Seq<u8>, i: int) -> bool {
    &&& 0 <= i
    &&& i + needle.len() <= hay.len()
    &&& hay.subrange(i, i + needle.len()) == needle
}

/// `needle` occurs somewhere in `hay`.
pub open spec fn contains_bytes_spec(hay: Seq<u8>, needle: Seq<u8>) -> bool {
    exists|i: int| substring_at(hay, needle, i)
}

/// A header of the given name is present.
pub open spec fn has_header_spec(headers: Seq<Vec<u8>>, name: Seq<u8>) -> bool {
    exists|i: int| 0 <= i < headers.len() && (#[trigger] headers[i])@ == name
}

/// All declared checks pass on the response.
pub open spec fn validation_passes(v: Validation, r: ResponseData) -> bool {
    &&& (v.expected_status matches Some(s) ==> r.status == s)
    &&& (v.required_text matches Some(t) ==> contains_bytes_spec(r.body@, t@))
    &&& (v.required_header matches Some(h) ==> has_header_spec(r.headers@, h@))
}

/// The single outcome of one request: cancellation, transport failure and
/// timeout take precedence, in that order, over the declared checks.
pub open spec fn classify_spec(v: Validation, r: ResponseData, timeout: u64, cancelled: bool) -> Outcome {
    if cancelled {
        Outcome::Cancelled
    } else if !r.transport_ok {
        Outcome::TransportError
    } else if r.elapsed > timeout {
        Outcome::Timeout
    } else if !validation_passes(v, r) {
        Outcome::ValidationFailure
    } else {
        Outcome::Success
    }
}

/// Byte-wise equality of two buffers.
pub fn bytes_eq(a: &Vec<u8>, b: &Vec<u8>) -> (r: bool)
    ensures
        r <==> a@ == b@,
{
    if a.len() != b.len() {
        return false;
    }
    let mut i: usize = 0;
    while i < a.len()
        invariant
            a.len() == b.len(),
            0 <= i <= a.len(),
            forall|k: int| 0 <= k < i ==> a@[k] == b@[k],
        decreases a.len() - i,
    {
        if a[i] != b[i] {
            return false;
        }
        i = i + 1;
    }
    proof {
        assert(a@ =~= b@);
    }
    true
}

/// Whether `needle` occurs in `hay` at position `i`.
fn matches_at(hay: &Vec<u8>, needle: &Vec<u8>, i: usize) -> (r: bool)
    requires
        i + needle@.len() <= hay@.len(),
    ensures
        r <==> substring_at(hay@, needle@, i as int),
{
    let hlen = hay.len();
    let nlen = needle.len();
    let mut j: usize = 0;
    while j < nlen
        invariant
            hlen == hay@.len(),
            nlen == needle@.len(),
            i + nlen <= hlen,
            0 <= j <= nlen,
            forall|k: int| 0 <= k < j ==> hay@[i + k] == needle@[k],
        decreases nlen - j,
    {
        if hay[i + j] != needle[j] {
            proof {
                assert(hay@.subrange(i as int, i + needle@.len())[j as int] == hay@[i + j]);
            }
            return false;
        }
        j = j + 1;
    }
    proof {
        assert(hay@.subrange(i as int, i + needle@.len()) =~= needle@);
    }
    true
}

/// Substring search, as the body check executes it.
pub fn contains_bytes(hay: &Vec<u8>, needle: &Vec<u8>) -> (r: bool)
    ensures
        r <==> contains_bytes_spec(hay@, needle@),
{
    if needle.len() > hay.len() {
        return false;
    }
    let last = hay.len() - needle.len();
    let mut i: usize = 0;
    loop
        invariant_except_break
            needle@.len() <= hay@.len(),
            last == hay@.len() - needle@.len(),
            0 <= i <= last,
            forall|k: int| 0 <= k < i ==> !substring_at(hay@, needle@, k),
        ensures
            forall|k: int| 0 <= k <= last ==> !substring_at(hay@, needle@, k),
        decreases last - i,
    {
        if matches_at(hay, needle, i) {
            proof {
                assert(substring_at(hay@, needle@, i as int));
            }
            return true;
        }
        if i == last {
            break;
        }
        i = i + 1;
    }
    false
}

/// Whether a header of the given name is present.
pub fn has_header(headers: &Vec<Vec<u8>>, name: &Vec<u8>) -> (r: bool)
    ensures
        r <==> has_header_spec(headers@, name@),
{
    let mut i: usize = 0;
    while i < headers.len()
        invariant
            0 <= i <= headers@.len(),
            forall|k: int| 0 <= k < i ==> (#[trigger] headers@[k])@ != name@,
        decreases headers@.len() - i,
    {
        if bytes_eq(&headers[i], name) {
            return true;
        }
        i = i + 1;
    }
    false
}

/// Runs all declared checks on a response.
pub fn validate_response(v: &Validation, r: &ResponseData) -> (ok: bool)
    ensures
        ok <==> validation_passes(*v, *r),
{
    let status_ok = match &v.expected_status {
        Some(s) => r.status == *s,
        None => true,
    };
    if !status_ok {
        return false;
    }
    let text_ok = match &v.required_text {
        Some(t) => contains_bytes(&r.body, t),
        None => true,
    };
    if !text_ok {
        return false;
    }
    match &v.required_header {
        Some(h) => has_header(&r.headers, h),
        None => true,
    }
}

/// Classifies one finished request into its single outcome.
pub fn classify(v: &Validation, r: &ResponseData, timeout: u64, cancelled: bool) -> (o: Outcome)
    ensures
        o == classify_spec(*v, *r, timeout, cancelled),
{
    if cancelled {
        Outcome::Cancelled
    } else if !r.transport_ok {
        Outcome::TransportError
    } else if r.elapsed > timeout {
        Outcome::Timeout
    } else if !validate_response(v, r) {
        Outcome::ValidationFailure
    } else {
        Outcome::Success
    }
}

/// The bookkeeping of one transaction execution: classify the response the
/// HTTP collaborator produced and emit exactly one request metric for it.
pub fn run_transaction(
    transaction: usize,
    method: Method,
    v: &Validation,
    r: &ResponseData,
    timeout: u64,
    cancelled: bool,
    timestamp: u64,
) -> (m: RequestMetric)
    ensures
        m.transaction == transaction,
        m.method == method,
        m.status == r.status,
        m.elapsed == r.elapsed,
        m.timestamp == timestamp,
        m.outcome == classify_spec(*v, *r, timeout, cancelled),
{
    RequestMetric {
        transaction,
        method,
        status: r.status,
        elapsed: r.elapsed,
        timestamp,
        outcome: classify(v, r, timeout, cancelled),
    }
}

} // verus!
