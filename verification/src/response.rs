use vstd::prelude::*;
use vstd::string::StrSliceExecFns;
use vstd::string::StringExecFns;
use vstd::utf8::{decode_utf8, encode_utf8, valid_utf8};

use crate::config::{lookup_response_type, Config, ResponseType};
use crate::error::{InvalidResponseReason, RocketLambError};
use crate::strutil::{find_first, lemma_find_from, lemma_lookup_str_skip, lookup_str, occurs_at,
    str_find};

verus! {

/// What `str::to_lowercase` returns for the given characters.
pub uninterp spec fn lower_of(s: Seq<char>) -> Seq<char>;

/// Relies on `str::to_lowercase`: the result depends on the characters
/// alone.
#[verifier::external_body]
fn lowercase(s: &str) -> (r: String)
    ensures
        r@ == lower_of(s@),
{
    s.to_lowercase()
}

/// Relies on `String::from_utf8`: it succeeds exactly on valid UTF-8,
/// returning the string those bytes encode; the error hands the original
/// bytes back.
#[verifier::external_body]
fn string_from_utf8(bytes: Vec<u8>) -> (r: Result<String, Vec<u8>>)
    ensures
        r is Ok <==> valid_utf8(bytes@),
        r matches Ok(s) ==> encode_utf8(s@) == bytes@ && s@ == decode_utf8(bytes@),
        r matches Err(b) ==> b@ == bytes@,
{
    match String::from_utf8(bytes) {
        Ok(s) => Ok(s),
        Err(e) => Err(e.into_bytes()),
    }
}

/// The lowercase image of an ASCII letter's code point; other characters
/// keep their own.
pub open spec fn lower_code(c: char) -> int {
    if 65 <= c as u32 && c as u32 <= 90 {
        c as u32 + 32
    } else {
        (c as u32) as int
    }
}

/// ASCII-case-insensitive equality, as header names are compared.
pub open spec fn iequal_ascii(a: Seq<char>, b: Seq<char>) -> bool {
    a.len() == b.len() && forall|i: int| 0 <= i < a.len() ==> lower_code(a[i]) == lower_code(b[i])
}

/// ASCII-case-insensitive string comparison.
fn str_ieq(a: &str, b: &str) -> (r: bool)
    ensures
        r == iequal_ascii(a@, b@),
{
    let alen = a.unicode_len();
    let blen = b.unicode_len();
    if alen != blen {
        return false;
    }
    let mut i: usize = 0;
    while i < alen
        invariant
            alen == a@.len(),
            blen == b@.len(),
            alen == blen,
            i <= alen,
            forall|j: int| 0 <= j < i ==> lower_code(a@[j]) == lower_code(b@[j]),
        decreases alen - i,
    {
        let ca = a.get_char(i) as u32;
        let cb = b.get_char(i) as u32;
        let la = if 65 <= ca && ca <= 90 {
            ca + 32
        } else {
            ca
        };
        let lb = if 65 <= cb && cb <= 90 {
            cb + 32
        } else {
            cb
        };
        if la != lb {
            return false;
        }
        i += 1;
    }
    true
}

/// The value of the first header whose name reads `content-type` under
/// ASCII-case-insensitive comparison; empty when absent.
pub open spec fn spec_content_type(headers: Seq<(String, String)>) -> Seq<char>
    decreases headers.len(),
{
    if headers.len() == 0 {
        Seq::<char>::empty()
    } else if iequal_ascii(headers[0].0@, "content-type"@) {
        headers[0].1@
    } else {
        spec_content_type(headers.drop_first())
    }
}

proof fn lemma_content_type_skip(headers: Seq<(String, String)>, i: int)
    requires
        0 <= i <= headers.len(),
        forall|j: int| 0 <= j < i ==> !iequal_ascii(headers[j].0@, "content-type"@),
    ensures
        spec_content_type(headers) == spec_content_type(headers.skip(i)),
    decreases i,
{
    if i == 0 {
        assert(headers.skip(0) =~= headers);
    } else {
        lemma_content_type_skip(headers, i - 1);
        assert(headers.skip(i - 1).drop_first() =~= headers.skip(i));
    }
}

/// The first `content-type` header's value, empty when absent.
fn content_type_value(headers: &Vec<(String, String)>) -> (r: String)
    ensures
        r@ == spec_content_type(headers@),
{
    let mut i: usize = 0;
    while i < headers.len()
        invariant
            i <= headers@.len(),
            forall|j: int| 0 <= j < i ==> !iequal_ascii(headers@[j].0@, "content-type"@),
        decreases headers@.len() - i,
    {
        if str_ieq(headers[i].0.as_str(), "content-type") {
            proof {
                lemma_content_type_skip(headers@, i as int);
                assert(headers@.skip(i as int)[0] == headers@[i as int]);
            }
            return headers[i].1.clone();
        }
        i += 1;
    }
    proof {
        lemma_content_type_skip(headers@, headers@.len() as int);
        assert(headers@.skip(headers@.len() as int) =~= Seq::<(String, String)>::empty());
    }
    String::new()
}

/// The content type up to (not including) its first `;`.
pub open spec fn before_semicolon(s: Seq<char>) -> Seq<char> {
    match find_first(s, seq![';']) {
        Some(k) => s.take(k),
        None => s,
    }
}

/// The substring of `ct` before its first `;`, or all of it.
fn split_before_semicolon(ct: String) -> (r: String)
    ensures
        r@ == before_semicolon(ct@),
{
    proof {
        reveal_strlit(";");
        assert(";"@ =~= seq![';']);
        lemma_find_from(ct@, seq![';'], 0);
    }
    match str_find(ct.as_str(), ";") {
        Some(k) => {
            proof {
                assert(occurs_at(ct@, seq![';'], k as int));
            }
            String::from_str(ct.as_str().substring_char(0, k))
        },
        None => ct,
    }
}

/// The body encoding the configuration declares for the response's headers:
/// the `content-type` value, cut at its first `;` and lowercased, looked up
/// in the configured response types, with the configured default as
/// fallback.
pub open spec fn spec_declared_encoding(config: Config, headers: Seq<(String, String)>)
    -> ResponseType {
    lookup_response_type(
        config.response_types@,
        lower_of(before_semicolon(spec_content_type(headers))),
        config.default_response_type,
    )
}

/// Computes the declared body encoding for a response's headers.
pub fn declared_encoding(config: &Config, headers: &Vec<(String, String)>) -> (r: ResponseType)
    ensures
        r == spec_declared_encoding(*config, headers@),
{
    let ct = content_type_value(headers);
    let prefix = split_before_semicolon(ct);
    let lowered = lowercase(prefix.as_str());
    let entries = &config.response_types;
    let mut i: usize = 0;
    while i < entries.len()
        invariant
            i <= entries@.len(),
            entries@ == config.response_types@,
            lowered@ == lower_of(before_semicolon(spec_content_type(headers@))),
            forall|j: int| 0 <= j < i ==> entries@[j].0@ != lowered@,
        decreases entries@.len() - i,
    {
        if entries[i].0 == lowered {
            proof {
                lemma_lookup_str_skip(entries@, lowered@, i as int);
                assert(entries@.skip(i as int)[0] == entries@[i as int]);
                assert(lookup_str(entries@, lowered@) == Some(entries@[i as int].1));
            }
            return entries[i].1;
        }
        i += 1;
    }
    proof {
        lemma_lookup_str_skip(entries@, lowered@, entries@.len() as int);
        assert(entries@.skip(entries@.len() as int) =~= Seq::<(String, ResponseType)>::empty());
    }
    config.default_response_type
}

/// A response body as handed back through the gateway envelope.
#[derive(Debug, PartialEq, Eq)]
pub enum ResponseBody {
    Empty,
    Text(String),
    Binary(Vec<u8>),
}

/// The gateway-facing response: status and headers copied verbatim, and the
/// body delivered under the decided encoding.
#[derive(Debug)]
pub struct OutgoingResponse {
    pub status: u16,
    pub headers: Vec<(String, String)>,
    pub body: ResponseBody,
}

/// Copies response headers verbatim, preserving order.
fn copy_response_headers(headers: &Vec<(String, String)>) -> (r: Vec<(String, String)>)
    ensures
        r@.len() == headers@.len(),
        forall|j: int|
            0 <= j < headers@.len() ==> r@[j].0@ == headers@[j].0@ && r@[j].1@ == headers@[j].1@,
{
    let mut out: Vec<(String, String)> = Vec::new();
    let mut i: usize = 0;
    while i < headers.len()
        invariant
            i <= headers@.len(),
            out@.len() == i,
            forall|j: int|
                0 <= j < i ==> out@[j].0@ == headers@[j].0@ && out@[j].1@ == headers@[j].1@,
        decreases headers@.len() - i,
    {
        let entry = &headers[i];
        out.push((entry.0.clone(), entry.1.clone()));
        i += 1;
    }
    out
}

/// Builds the outgoing response from the framework's response parts: status
/// and headers are copied verbatim; the body is delivered per the declared
/// encoding, `Auto` falling back to binary on non-UTF-8 bytes and `Text`
/// failing on them with `InvalidResponse`.
pub fn translate_response(
    config: &Config,
    status: u16,
    headers: &Vec<(String, String)>,
    body: Option<Vec<u8>>,
) -> (r: Result<OutgoingResponse, RocketLambError>)
    ensures
        (r is Err <==> (body matches Some(b) && spec_declared_encoding(*config, headers@)
            is Text && !valid_utf8(b@))),
        r matches Err(e) ==> e == RocketLambError::InvalidResponse(
            InvalidResponseReason::NonUtf8TextBody,
        ),
        r matches Ok(res) ==> {
            &&& res.status == status
            &&& res.headers@.len() == headers@.len()
            &&& forall|j: int|
                0 <= j < headers@.len() ==> res.headers@[j].0@ == headers@[j].0@
                    && res.headers@[j].1@ == headers@[j].1@
            &&& match body {
                None => res.body is Empty,
                Some(b) => match spec_declared_encoding(*config, headers@) {
                    ResponseType::Auto => if valid_utf8(b@) {
                        res.body matches ResponseBody::Text(s) && encode_utf8(s@) == b@ && s@
                            == decode_utf8(b@)
                    } else {
                        res.body matches ResponseBody::Binary(bb) && bb@ == b@
                    },
                    ResponseType::Text => res.body matches ResponseBody::Text(s) && encode_utf8(
                        s@,
                    ) == b@ && s@ == decode_utf8(b@),
                    ResponseType::Binary => res.body matches ResponseBody::Binary(bb) && bb@
                        == b@,
                },
            }
        },
{
    let encoding = declared_encoding(config, headers);
    let out_headers = copy_response_headers(headers);
    let out_body = match body {
        None => ResponseBody::Empty,
        Some(b) => match encoding {
            ResponseType::Auto => match string_from_utf8(b) {
                Ok(s) => ResponseBody::Text(s),
                Err(bb) => ResponseBody::Binary(bb),
            },
            ResponseType::Text => match string_from_utf8(b) {
                Ok(s) => ResponseBody::Text(s),
                Err(_) => {
                    return Err(
                        RocketLambError::InvalidResponse(InvalidResponseReason::NonUtf8TextBody),
                    );
                },
            },
            ResponseType::Binary => ResponseBody::Binary(b),
        },
    };
    Ok(OutgoingResponse { status, headers: out_headers, body: out_body })
}

} // verus!
