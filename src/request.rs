//! The request that a probe sends: its target and its JSON-RPC body.
use vstd::prelude::*;
use vstd::string::StringExecFns;
use crate::endpoint::Endpoint;

verus! {

/// Seconds a probe waits for a response before it counts as failed.
pub const PROBE_TIMEOUT_SECS: u64 = 10;

/// The JSON-RPC method that a probe calls.
pub const RPC_METHOD: &'static str = "getTipAccounts";

/// The path of the health-check call, appended to an endpoint's origin.
pub const RPC_PATH: &'static str = "/api/v1/getTipAccounts";

/// The JSON string literal that serde_json writes for `s`.
pub uninterp spec fn json_string_of(s: Seq<char>) -> Seq<char>;

/// Characters that a JSON string literal cannot hold as they are.
pub open spec fn needs_json_escape(c: char) -> bool {
    c < ' ' || c == '"' || c == '\\'
}

/// Relies on serde_json::to_string on a string slice: it succeeds (a string
/// is written through `serialize_str` into a `Vec`, which cannot fail), and
/// writes a quoted JSON string literal that escapes only control characters,
/// quotes and backslashes.
#[verifier::external_body]
fn json_string(s: &str) -> (r: Option<String>)
    ensures
        r is Some,
        r matches Some(t) ==> t@ == json_string_of(s@),
        r matches Some(t) ==> ((forall|i: int| 0 <= i < s@.len() ==> !needs_json_escape(s@[i]))
            ==> t@ == seq!['"'] + s@ + seq!['"']),
{
    serde_json::to_string(s).ok()
}

/// The JSON-RPC 2.0 request body calling `method`, with id 1 and no
/// parameters.
pub open spec fn rpc_body_text(method: Seq<char>) -> Seq<char> {
    "{\"jsonrpc\":\"2.0\",\"id\":1,\"method\":"@ + json_string_of(method) + ",\"params\":[]}"@
}

/// The JSON-RPC 2.0 request body calling `method`. A method name that needs
/// no escape is quoted as it is.
pub fn rpc_request_body(method: &str) -> (b: String)
    ensures
        b@ == rpc_body_text(method@),
        (forall|i: int| 0 <= i < method@.len() ==> !needs_json_escape(method@[i])) ==> b@
            == "{\"jsonrpc\":\"2.0\",\"id\":1,\"method\":\""@ + method@ + "\",\"params\":[]}"@,
{
    let quoted = json_string(method).unwrap();
    let mut b = String::from_str("{\"jsonrpc\":\"2.0\",\"id\":1,\"method\":");
    b.append(quoted.as_str());
    b.append(",\"params\":[]}");
    proof {
        reveal_strlit("{\"jsonrpc\":\"2.0\",\"id\":1,\"method\":");
        reveal_strlit("{\"jsonrpc\":\"2.0\",\"id\":1,\"method\":\"");
        reveal_strlit(",\"params\":[]}");
        reveal_strlit("\",\"params\":[]}");
        if forall|i: int| 0 <= i < method@.len() ==> !needs_json_escape(method@[i]) {
            assert(b@ =~= "{\"jsonrpc\":\"2.0\",\"id\":1,\"method\":\""@ + method@
                + "\",\"params\":[]}"@);
        }
    }
    b
}

/// The body of the health-check call.
pub fn probe_body() -> (b: String)
    ensures
        b@ == rpc_body_text(RPC_METHOD@),
        b@ == "{\"jsonrpc\":\"2.0\",\"id\":1,\"method\":\"getTipAccounts\",\"params\":[]}"@,
{
    proof {
        reveal_strlit("getTipAccounts");
        reveal_strlit("{\"jsonrpc\":\"2.0\",\"id\":1,\"method\":\"");
        reveal_strlit("\",\"params\":[]}");
        reveal_strlit("{\"jsonrpc\":\"2.0\",\"id\":1,\"method\":\"getTipAccounts\",\"params\":[]}");
    }
    let b = rpc_request_body(RPC_METHOD);
    assert(b@ =~= "{\"jsonrpc\":\"2.0\",\"id\":1,\"method\":\"getTipAccounts\",\"params\":[]}"@);
    b
}

/// The URL of the health-check call on `endpoint`.
pub fn probe_url(endpoint: &Endpoint) -> (r: String)
    ensures
        r@ == endpoint.url@ + RPC_PATH@,
{
    let mut r = endpoint.url.clone();
    r.append(RPC_PATH);
    r
}

} // verus!
