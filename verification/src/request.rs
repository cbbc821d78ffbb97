use vstd::prelude::*;

use crate::config::Config;
use crate::error::{InvalidRequestReason, RocketLambError, TranslateError};
use crate::event::{IncomingEvent, Method};
use crate::paths::spec_selected_path;
use crate::query::{append_query_string, qs_entries};
use crate::strutil::str_eq;

verus! {

/// The method's place in the closed enumeration, if any.
pub open spec fn spec_method_of(s: Seq<char>) -> Option<Method> {
    if s == "GET"@ {
        Some(Method::Get)
    } else if s == "PUT"@ {
        Some(Method::Put)
    } else if s == "POST"@ {
        Some(Method::Post)
    } else if s == "DELETE"@ {
        Some(Method::Delete)
    } else if s == "OPTIONS"@ {
        Some(Method::Options)
    } else if s == "HEAD"@ {
        Some(Method::Head)
    } else if s == "TRACE"@ {
        Some(Method::Trace)
    } else if s == "CONNECT"@ {
        Some(Method::Connect)
    } else if s == "PATCH"@ {
        Some(Method::Patch)
    } else {
        None
    }
}

/// Maps the method string into the closed enumeration, failing with
/// `InvalidRequest` on any other value.
pub fn to_rocket_method(method: &str) -> (r: Result<Method, RocketLambError>)
    ensures
        match r {
            Ok(m) => spec_method_of(method@) == Some(m),
            Err(e) => spec_method_of(method@) is None && (e matches RocketLambError::InvalidRequest(
                InvalidRequestReason::UnknownMethod(s),
            ) && s@ == method@),
        },
{
    if str_eq(method, "GET") {
        Ok(Method::Get)
    } else if str_eq(method, "PUT") {
        Ok(Method::Put)
    } else if str_eq(method, "POST") {
        Ok(Method::Post)
    } else if str_eq(method, "DELETE") {
        Ok(Method::Delete)
    } else if str_eq(method, "OPTIONS") {
        Ok(Method::Options)
    } else if str_eq(method, "HEAD") {
        Ok(Method::Head)
    } else if str_eq(method, "TRACE") {
        Ok(Method::Trace)
    } else if str_eq(method, "CONNECT") {
        Ok(Method::Connect)
    } else if str_eq(method, "PATCH") {
        Ok(Method::Patch)
    } else {
        Err(
            RocketLambError::InvalidRequest(
                InvalidRequestReason::UnknownMethod(method.to_owned()),
            ),
        )
    }
}

/// A byte a header value may hold while still decoding as text: the visible
/// ASCII range, or a tab.
pub open spec fn is_textual_byte(b: u8) -> bool {
    (32 <= b && b < 127) || b == 9
}

/// The header value decodes as text.
pub open spec fn header_value_is_text(v: Seq<u8>) -> bool {
    forall|i: int| 0 <= i < v.len() ==> is_textual_byte(v[i])
}

/// The index of the first header, at or after `i`, whose value does not
/// decode as text.
pub open spec fn first_non_text_from(headers: Seq<(String, Vec<u8>)>, i: int) -> Option<int>
    decreases headers.len() - i,
{
    if i < 0 || i >= headers.len() {
        None
    } else if !header_value_is_text(headers[i].1@) {
        Some(i)
    } else {
        first_non_text_from(headers, i + 1)
    }
}

/// The index of the first header whose value does not decode as text.
pub open spec fn first_non_text(headers: Seq<(String, Vec<u8>)>) -> Option<int> {
    first_non_text_from(headers, 0)
}

proof fn lemma_first_non_text_skip(headers: Seq<(String, Vec<u8>)>, i: int)
    requires
        0 <= i <= headers.len(),
        forall|j: int| 0 <= j < i ==> header_value_is_text(headers[j].1@),
    ensures
        first_non_text(headers) == first_non_text_from(headers, i),
    decreases i,
{
    if i > 0 {
        lemma_first_non_text_skip(headers, i - 1);
    }
}

/// Whether every byte of the value decodes as text.
fn value_is_text(v: &Vec<u8>) -> (r: bool)
    ensures
        r == header_value_is_text(v@),
{
    let mut i: usize = 0;
    while i < v.len()
        invariant
            i <= v@.len(),
            forall|j: int| 0 <= j < i ==> is_textual_byte(v@[j]),
        decreases v@.len() - i,
    {
        let b = v[i];
        if !((32 <= b && b < 127) || b == 9) {
            return false;
        }
        i += 1;
    }
    true
}

/// A fully verified byte copy.
fn copy_bytes(v: &Vec<u8>) -> (r: Vec<u8>)
    ensures
        r@ == v@,
{
    let mut r: Vec<u8> = Vec::new();
    let mut i: usize = 0;
    while i < v.len()
        invariant
            i <= v@.len(),
            r@ == v@.take(i as int),
        decreases v@.len() - i,
    {
        r.push(v[i]);
        proof {
            assert(v@.take(i as int) + seq![v@[i as int]] =~= v@.take(i + 1));
        }
        i += 1;
    }
    proof {
        assert(v@.take(v@.len() as int) =~= v@);
    }
    r
}

/// Copies the headers in order, failing on the first value that does not
/// decode as text, naming that header.
fn copy_headers(headers: &Vec<(String, Vec<u8>)>) -> (r: Result<
    Vec<(String, Vec<u8>)>,
    RocketLambError,
>)
    ensures
        match first_non_text(headers@) {
            Some(i) => r matches Err(RocketLambError::InvalidRequest(
                InvalidRequestReason::NonTextHeader(name),
            )) && name@ == headers@[i].0@,
            None => r matches Ok(hs) && hs@.len() == headers@.len() && forall|j: int|
                0 <= j < headers@.len() ==> hs@[j].0@ == headers@[j].0@ && hs@[j].1@
                    == headers@[j].1@,
        },
{
    let mut out: Vec<(String, Vec<u8>)> = Vec::new();
    let mut i: usize = 0;
    while i < headers.len()
        invariant
            i <= headers@.len(),
            out@.len() == i,
            forall|j: int| 0 <= j < i ==> header_value_is_text(headers@[j].1@),
            forall|j: int|
                0 <= j < i ==> out@[j].0@ == headers@[j].0@ && out@[j].1@ == headers@[j].1@,
        decreases headers@.len() - i,
    {
        let entry = &headers[i];
        if !value_is_text(&entry.1) {
            proof {
                lemma_first_non_text_skip(headers@, i as int);
            }
            return Err(
                RocketLambError::InvalidRequest(
                    InvalidRequestReason::NonTextHeader(entry.0.clone()),
                ),
            );
        }
        out.push((entry.0.clone(), copy_bytes(&entry.1)));
        i += 1;
    }
    proof {
        lemma_first_non_text_skip(headers@, headers@.len() as int);
    }
    Ok(out)
}

/// A request ready to hand to the framework's dispatch entry point.
#[derive(Debug)]
pub struct DispatchRequest {
    pub method: Method,
    /// The selected dispatch path with the percent-encoded query string.
    pub uri: String,
    /// The event's headers, each value validated to decode as text.
    pub headers: Vec<(String, Vec<u8>)>,
    /// The event's body bytes, unmodified.
    pub body: Vec<u8>,
}

/// The dispatch URI: the path selected by the base-path behaviour with the
/// reattached query string.
pub fn get_path_and_query(config: &Config, ev: &IncomingEvent) -> (r: Result<
    String,
    crate::error::PathError,
>)
    ensures
        match r {
            Ok(s) => spec_selected_path(*config, *ev) matches Ok(p) && s@ == p + qs_entries(
                ev.query@,
                true,
            ),
            Err(e) => spec_selected_path(*config, *ev) matches Err(e2) && e == e2,
        },
{
    match ev.selected_path(config) {
        Err(e) => Err(e),
        Ok(mut uri) => {
            append_query_string(&mut uri, &ev.query);
            Ok(uri)
        },
    }
}

/// Builds the framework-facing request: the method from the closed
/// enumeration, the dispatch URI, the headers checked to decode as text, and
/// the body passed through unmodified. Fails with `InvalidRequest` on an
/// unsupported method or a non-text header value, and fatally on a path
/// resolution mismatch.
pub fn translate_request(config: &Config, ev: &IncomingEvent) -> (r: Result<
    DispatchRequest,
    TranslateError,
>)
    ensures
        spec_method_of(ev.method@) is None ==> (r matches Err(TranslateError::Request(
            RocketLambError::InvalidRequest(InvalidRequestReason::UnknownMethod(s)),
        )) && s@ == ev.method@),
        spec_method_of(ev.method@) is Some && spec_selected_path(*config, *ev) is Err ==> (
        r matches Err(TranslateError::Path(e)) && spec_selected_path(*config, *ev) == Err::<
            Seq<char>,
            crate::error::PathError,
        >(e)),
        (spec_method_of(ev.method@) is Some && spec_selected_path(*config, *ev) is Ok) ==> (
        first_non_text(ev.headers@) matches Some(i) ==> (r matches Err(TranslateError::Request(
            RocketLambError::InvalidRequest(InvalidRequestReason::NonTextHeader(name)),
        )) && name@ == ev.headers@[i].0@)),
        spec_method_of(ev.method@) is Some && spec_selected_path(*config, *ev) is Ok
            && first_non_text(ev.headers@) is None ==> (r matches Ok(dr) && {
            &&& Some(dr.method) == spec_method_of(ev.method@)
            &&& dr.uri@ == spec_selected_path(*config, *ev)->Ok_0 + qs_entries(ev.query@, true)
            &&& dr.headers@.len() == ev.headers@.len()
            &&& forall|j: int|
                0 <= j < ev.headers@.len() ==> dr.headers@[j].0@ == ev.headers@[j].0@
                    && dr.headers@[j].1@ == ev.headers@[j].1@
            &&& dr.body@ == ev.body@
        }),
{
    let method = match to_rocket_method(ev.method.as_str()) {
        Ok(m) => m,
        Err(e) => {
            return Err(TranslateError::Request(e));
        },
    };
    let uri = match get_path_and_query(config, ev) {
        Ok(u) => u,
        Err(e) => {
            return Err(TranslateError::Path(e));
        },
    };
    let headers = match copy_headers(&ev.headers) {
        Ok(h) => h,
        Err(e) => {
            return Err(TranslateError::Request(e));
        },
    };
    let body = copy_bytes(&ev.body);
    Ok(DispatchRequest { method, uri, headers, body })
}

} // verus!
