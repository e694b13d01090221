//! The retained binding scaffold: it does not own the JS/WASM boundary, and
//! fails closed with explicit metadata naming the canonical owner, as
//! structured values and as JSON.

use vstd::prelude::*;
use crate::text::{push_char, push_str};

verus! {

/// The crate that owns the shipped boundary.
pub const CANONICAL_RUST_CRATE: &'static str = "asupersync-browser-core";

/// The JS package that owns the shipped boundary.
pub const CANONICAL_JS_PACKAGE: &'static str = "@asupersync/browser-core";

/// The role of this scaffold.
pub const RETAINED_ROLE: &'static str = "retained-scaffold";

/// Machine-readable code for requests routed to the scaffold.
pub const NON_CANONICAL_BOUNDARY_ERROR_CODE: &'static str = "non_canonical_boundary";

/// Explicit status of the scaffold.
#[derive(Debug, Clone, PartialEq, Eq)]
pub struct RetainedBoundaryStatus {
    pub role: String,
    pub canonical_rust_crate: String,
    pub canonical_js_package: String,
    pub message: String,
}

/// The status message.
pub open spec fn status_message() -> Seq<char> {
    "`asupersync-wasm` is a retained scaffold; the shipped JS/WASM boundary lives in `"@ + CANONICAL_RUST_CRATE@
        + "` / `"@ + CANONICAL_JS_PACKAGE@ + "`"@
}

/// Whether `s` is the scaffold's status.
pub open spec fn is_current_status(s: RetainedBoundaryStatus) -> bool {
    &&& s.role@ == RETAINED_ROLE@
    &&& s.canonical_rust_crate@ == CANONICAL_RUST_CRATE@
    &&& s.canonical_js_package@ == CANONICAL_JS_PACKAGE@
    &&& s.message@ == status_message()
}

impl RetainedBoundaryStatus {
    /// The current truthful role of the scaffold.
    pub fn current() -> (s: Self)
        ensures
            is_current_status(s),
    {
        let mut message = String::new();
        push_str(&mut message, "`asupersync-wasm` is a retained scaffold; the shipped JS/WASM boundary lives in `");
        push_str(&mut message, CANONICAL_RUST_CRATE);
        push_str(&mut message, "` / `");
        push_str(&mut message, CANONICAL_JS_PACKAGE);
        push_str(&mut message, "`");
        proof {
            assert(message@ =~= status_message());
        }
        RetainedBoundaryStatus {
            role: String::from_str(RETAINED_ROLE),
            canonical_rust_crate: String::from_str(CANONICAL_RUST_CRATE),
            canonical_js_package: String::from_str(CANONICAL_JS_PACKAGE),
            message,
        }
    }
}

/// The current retained-scaffold status.
pub fn retained_boundary_status() -> (s: RetainedBoundaryStatus)
    ensures
        is_current_status(s),
{
    RetainedBoundaryStatus::current()
}

/// The truthful status of the scaffold.
pub fn canonical_boundary_status() -> (s: RetainedBoundaryStatus)
    ensures
        is_current_status(s),
{
    retained_boundary_status()
}

/// Explicit error returned when callers use the scaffold as the live boundary.
#[derive(Debug, Clone, PartialEq, Eq)]
pub struct RetainedBoundaryError {
    pub code: String,
    pub requested_symbol: String,
    pub role: String,
    pub canonical_rust_crate: String,
    pub canonical_js_package: String,
    pub message: String,
}

/// The message for a request of `symbol`.
pub open spec fn error_message(symbol: Seq<char>) -> Seq<char> {
    "`"@ + symbol + "` is not available from `asupersync-wasm`; use `"@ + CANONICAL_RUST_CRATE@ + "` / `"@
        + CANONICAL_JS_PACKAGE@ + "` for the shipped JS/WASM boundary"@
}

/// Whether `e` is the error for a request of `symbol`.
pub open spec fn is_boundary_error(e: RetainedBoundaryError, symbol: Seq<char>) -> bool {
    &&& e.code@ == NON_CANONICAL_BOUNDARY_ERROR_CODE@
    &&& e.requested_symbol@ == symbol
    &&& e.role@ == RETAINED_ROLE@
    &&& e.canonical_rust_crate@ == CANONICAL_RUST_CRATE@
    &&& e.canonical_js_package@ == CANONICAL_JS_PACKAGE@
    &&& e.message@ == error_message(symbol)
}

/// A deterministic error directing callers to the canonical boundary crate.
pub fn non_canonical_boundary_error(requested_symbol: &str) -> (e: RetainedBoundaryError)
    ensures
        is_boundary_error(e, requested_symbol@),
{
    let mut message = String::new();
    push_str(&mut message, "`");
    push_str(&mut message, requested_symbol);
    push_str(&mut message, "` is not available from `asupersync-wasm`; use `");
    push_str(&mut message, CANONICAL_RUST_CRATE);
    push_str(&mut message, "` / `");
    push_str(&mut message, CANONICAL_JS_PACKAGE);
    push_str(&mut message, "` for the shipped JS/WASM boundary");
    proof {
        assert(message@ =~= error_message(requested_symbol@));
    }
    RetainedBoundaryError {
        code: String::from_str(NON_CANONICAL_BOUNDARY_ERROR_CODE),
        requested_symbol: requested_symbol.to_owned(),
        role: String::from_str(RETAINED_ROLE),
        canonical_rust_crate: String::from_str(CANONICAL_RUST_CRATE),
        canonical_js_package: String::from_str(CANONICAL_JS_PACKAGE),
        message,
    }
}

/// Fail closed when a caller asks the scaffold to serve a live ABI symbol.
pub fn fail_closed_symbol(symbol: &str) -> (r: Result<(), RetainedBoundaryError>)
    ensures
        r matches Err(e) && is_boundary_error(e, symbol@),
{
    Err(non_canonical_boundary_error(symbol))
}

// ---------------------------------------------------------------------------
// JSON encoding: each text as serde_json writes it, fields in declaration
// order, as serde's derived `Serialize` lays out a struct
// ---------------------------------------------------------------------------
/// The JSON string literal that `serde_json` writes for the text `s`.
pub uninterp spec fn serde_json_string(s: Seq<char>) -> Seq<char>;

/// `serde_json::to_string` on a `str`: its JSON string literal. Serialising
/// a `str` into the in-memory buffer cannot fail (serde_json reports errors
/// only from a failing `Serialize` impl, a map with non-string keys, or the
/// writer, and a `Vec` never fails to write), so the literal is returned.
#[verifier::external_body]
fn json_string_literal(s: &str) -> (r: String)
    ensures
        r@ == serde_json_string(s@),
{
    serde_json::to_string(s).unwrap_or_default()
}

/// Append `s` as a JSON string literal.
fn push_json_string(out: &mut String, s: &str)
    ensures
        final(out)@ == old(out)@ + serde_json_string(s@),
{
    let lit = json_string_literal(s);
    push_str(out, lit.as_str());
}

/// `"name":` followed by the JSON string of `value`.
pub open spec fn json_field(name: Seq<char>, value: Seq<char>) -> Seq<char> {
    serde_json_string(name) + seq![':'] + serde_json_string(value)
}

/// The JSON object of a boundary error, fields in declaration order.
pub open spec fn error_json(e: RetainedBoundaryError) -> Seq<char> {
    seq!['{'] + json_field("code"@, e.code@) + seq![','] + json_field("requested_symbol"@, e.requested_symbol@)
        + seq![','] + json_field("role"@, e.role@) + seq![','] + json_field(
        "canonical_rust_crate"@,
        e.canonical_rust_crate@,
    ) + seq![','] + json_field("canonical_js_package"@, e.canonical_js_package@) + seq![','] + json_field(
        "message"@,
        e.message@,
    ) + seq!['}']
}

/// The JSON object of a status, fields in declaration order.
pub open spec fn status_json(s: RetainedBoundaryStatus) -> Seq<char> {
    seq!['{'] + json_field("role"@, s.role@) + seq![','] + json_field("canonical_rust_crate"@, s.canonical_rust_crate@)
        + seq![','] + json_field("canonical_js_package"@, s.canonical_js_package@) + seq![','] + json_field(
        "message"@,
        s.message@,
    ) + seq!['}']
}

fn push_json_field(out: &mut String, name: &str, value: &str)
    ensures
        final(out)@ == old(out)@ + json_field(name@, value@),
{
    let ghost start = out@;
    push_json_string(out, name);
    push_char(out, ':');
    push_json_string(out, value);
    proof {
        assert(out@ =~= start + json_field(name@, value@));
    }
}

/// Encode a boundary error as a JSON object.
pub fn encode_boundary_error(e: &RetainedBoundaryError) -> (s: String)
    ensures
        s@ == error_json(*e),
{
    let mut s = String::new();
    push_char(&mut s, '{');
    push_json_field(&mut s, "code", e.code.as_str());
    push_char(&mut s, ',');
    push_json_field(&mut s, "requested_symbol", e.requested_symbol.as_str());
    push_char(&mut s, ',');
    push_json_field(&mut s, "role", e.role.as_str());
    push_char(&mut s, ',');
    push_json_field(&mut s, "canonical_rust_crate", e.canonical_rust_crate.as_str());
    push_char(&mut s, ',');
    push_json_field(&mut s, "canonical_js_package", e.canonical_js_package.as_str());
    push_char(&mut s, ',');
    push_json_field(&mut s, "message", e.message.as_str());
    push_char(&mut s, '}');
    proof {
        assert(s@ =~= error_json(*e));
    }
    s
}

/// Encode a status as a JSON object.
pub fn encode_boundary_status(st: &RetainedBoundaryStatus) -> (s: String)
    ensures
        s@ == status_json(*st),
{
    let mut s = String::new();
    push_char(&mut s, '{');
    push_json_field(&mut s, "role", st.role.as_str());
    push_char(&mut s, ',');
    push_json_field(&mut s, "canonical_rust_crate", st.canonical_rust_crate.as_str());
    push_char(&mut s, ',');
    push_json_field(&mut s, "canonical_js_package", st.canonical_js_package.as_str());
    push_char(&mut s, ',');
    push_json_field(&mut s, "message", st.message.as_str());
    push_char(&mut s, '}');
    proof {
        assert(s@ =~= status_json(*st));
    }
    s
}

/// The boundary error for `requested_symbol`, encoded as JSON.
pub fn non_canonical_boundary_error_json(requested_symbol: &str) -> (s: String)
    ensures
        exists|e: RetainedBoundaryError| is_boundary_error(e, requested_symbol@) && s@ == error_json(e),
{
    let e = non_canonical_boundary_error(requested_symbol);
    encode_boundary_error(&e)
}

/// The scaffold status, encoded as JSON.
pub fn canonical_boundary_status_json() -> (s: String)
    ensures
        exists|st: RetainedBoundaryStatus| is_current_status(st) && s@ == status_json(st),
{
    let st = canonical_boundary_status();
    encode_boundary_status(&st)
}

/// JSON-encoded fail-closed response for deterministic host-side checks.
pub fn fail_closed_symbol_json(symbol: &str) -> (r: Result<String, String>)
    ensures
        r matches Err(s) && exists|e: RetainedBoundaryError| is_boundary_error(e, symbol@) && s@ == error_json(e),
{
    Err(non_canonical_boundary_error_json(symbol))
}

} // verus!
