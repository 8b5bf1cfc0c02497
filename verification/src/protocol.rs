//! The JSON-RPC style protocol envelope and its error codes.
//!
//! A request carries an optional identifier; one without an identifier
//! is a notification and never receives a response.  A response holds
//! exactly one of a result or an error.  Parameter values arrive as a
//! key-value list: transports hand string-valued fields through and
//! mark anything else as an ill-typed value.

use vstd::prelude::*;

verus! {

/// Malformed JSON on the wire.
pub const ERROR_PARSE: i32 = -32700;

/// A malformed envelope, including a wrong protocol version.
pub const ERROR_INVALID_REQUEST: i32 = -32600;

/// An unknown (or disabled) method.
pub const ERROR_METHOD_NOT_FOUND: i32 = -32601;

/// A missing or ill-typed parameter, or an identifier naming no record.
pub const ERROR_INVALID_PARAMS: i32 = -32602;

/// A store or internal failure.
pub const ERROR_INTERNAL: i32 = -32603;

/// The protocol version this dispatcher accepts.
pub open spec fn supported_version() -> Seq<char> {
    "2.0"@
}

/// A parameter value: a string, or something the transport could not
/// read as one.
#[derive(Clone, Debug)]
pub enum ParamValue {
    Str(String),
    Other,
}

/// Spec-level view of a parameter value.
pub enum ParamValueV {
    Str(Seq<char>),
    Other,
}

impl View for ParamValue {
    type V = ParamValueV;

    open spec fn view(&self) -> ParamValueV {
        match self {
            ParamValue::Str(s) => ParamValueV::Str(s@),
            ParamValue::Other => ParamValueV::Other,
        }
    }
}

impl DeepView for ParamValue {
    type V = ParamValueV;

    open spec fn deep_view(&self) -> ParamValueV {
        self.view()
    }
}

/// One named parameter.
#[derive(Clone, Debug)]
pub struct Param {
    pub key: String,
    pub value: ParamValue,
}

/// Spec-level view of a parameter.
pub struct ParamV {
    pub key: Seq<char>,
    pub value: ParamValueV,
}

impl View for Param {
    type V = ParamV;

    open spec fn view(&self) -> ParamV {
        ParamV { key: self.key@, value: self.value@ }
    }
}

impl DeepView for Param {
    type V = ParamV;

    open spec fn deep_view(&self) -> ParamV {
        self.view()
    }
}

/// The parameters of a request, in arrival order; on duplicate keys
/// the first occurrence decides.
#[derive(Clone, Debug)]
pub struct MCPParams {
    pub entries: Vec<Param>,
}

/// A request envelope.
#[derive(Debug)]
pub struct MCPRequest {
    pub jsonrpc: String,
    pub id: Option<String>,
    pub method: String,
    pub params: MCPParams,
}

/// A named context snippet a client may attach to a request.
#[derive(Clone, Debug)]
pub struct MCPContext {
    pub name: String,
    pub content: Option<String>,
}

/// A response envelope: exactly one of `result` and `error` is
/// present.
#[derive(Debug)]
pub struct MCPResponse {
    pub jsonrpc: String,
    pub id: Option<String>,
    pub result: Option<MCPResult>,
    pub error: Option<MCPError>,
}

/// The success payload of a response.
#[derive(Clone, Debug)]
pub struct MCPResult {
    pub content: String,
    pub metadata: Option<Vec<(String, String)>>,
}

/// The failure payload of a response.
#[derive(Clone, Debug)]
pub struct MCPError {
    pub code: i32,
    pub message: String,
    pub data: Option<String>,
}

/// A compact request form used by stream transports.
#[derive(Clone, Debug)]
pub struct MpcRequest {
    pub id: String,
    pub q: String,
    pub ctx: RequestContext,
}

/// A compact response form used by stream transports.
#[derive(Clone, Debug)]
pub struct MpcResponse {
    pub id: String,
    pub status: i32,
    pub content: String,
    pub ctx: RequestContext,
}

/// Token accounting carried alongside a compact request.
#[derive(Clone, Debug)]
pub struct RequestContext {
    pub request_id: String,
    pub token_count: i32,
    pub max_tokens: i32,
    pub remaining_tokens: i32,
}

/// A domain error carried by the compact forms.
#[derive(Clone, Debug)]
pub struct MpcError {
    pub code: i32,
    pub message: String,
}

impl MpcError {
    /// Packs a code and a message.
    pub fn new(code: i32, message: String) -> (r: MpcError)
        ensures
            r.code == code,
            r.message == message,
    {
        MpcError { code, message }
    }
}

/// View of an optional string (shared with the record models).
pub open spec fn opt_view(o: Option<String>) -> Option<Seq<char>> {
    crate::models::opt_str_view(o)
}

/// The response invariant: exactly one of result and error.
pub open spec fn response_well_formed(r: MCPResponse) -> bool {
    (r.result is Some) != (r.error is Some)
}

/// Index of the first parameter named `key`, searching from `i`;
/// negative when none is.
pub open spec fn param_idx_from(ps: Seq<ParamV>, key: Seq<char>, i: int) -> int
    decreases ps.len() - i,
{
    if i < 0 || i >= ps.len() {
        -1
    } else if ps[i].key == key {
        i
    } else {
        param_idx_from(ps, key, i + 1)
    }
}

/// The string value of the first parameter named `key`: absent when no
/// such parameter exists or its value is not a string.
pub open spec fn param_str(ps: Seq<ParamV>, key: Seq<char>) -> Option<Seq<char>> {
    let i = param_idx_from(ps, key, 0);
    if i < 0 {
        None
    } else {
        match ps[i].value {
            ParamValueV::Str(s) => Some(s),
            ParamValueV::Other => None,
        }
    }
}

impl MCPParams {
    /// An empty parameter list.
    pub fn new() -> (r: MCPParams)
        ensures
            r.entries.deep_view().len() == 0,
    {
        MCPParams { entries: Vec::new() }
    }

    /// Appends a string parameter.
    pub fn push_str(&mut self, key: &str, value: &str)
        ensures
            final(self).entries.deep_view() == old(self).entries.deep_view().push(
                (ParamV { key: key@, value: ParamValueV::Str(value@) })),
    {
        let ghost old_dv = self.entries.deep_view();
        self.entries.push(Param {
            key: key.to_owned(),
            value: ParamValue::Str(value.to_owned()),
        });
        proof {
            assert(self.entries.deep_view() =~~= old_dv.push(
                ParamV { key: key@, value: ParamValueV::Str(value@) }));
        }
    }

    /// Appends a parameter the transport could not read as a string.
    pub fn push_other(&mut self, key: &str)
        ensures
            final(self).entries.deep_view() == old(self).entries.deep_view().push(
                (ParamV { key: key@, value: ParamValueV::Other })),
    {
        let ghost old_dv = self.entries.deep_view();
        self.entries.push(Param { key: key.to_owned(), value: ParamValue::Other });
        proof {
            assert(self.entries.deep_view() =~~= old_dv.push(
                ParamV { key: key@, value: ParamValueV::Other }));
        }
    }

    /// Looks up the string value of the first parameter named `key`.
    pub fn get_str(&self, key: &str) -> (r: Option<&String>)
        ensures
            match r {
                Some(s) => param_str(self.entries.deep_view(), key@) == Some(s@),
                None => param_str(self.entries.deep_view(), key@) is None,
            },
    {
        let ghost ps = self.entries.deep_view();
        let mut i: usize = 0;
        while i < self.entries.len()
            invariant
                i <= self.entries@.len(),
                ps == self.entries.deep_view(),
                param_idx_from(ps, key@, 0) == param_idx_from(ps, key@, i as int),
            decreases self.entries@.len() - i,
        {
            let e = &self.entries[i];
            proof {
                assert(ps[i as int] == self.entries@[i as int].deep_view());
            }
            if crate::text::str_eq(e.key.as_str(), key) {
                assert(param_idx_from(ps, key@, 0) == i as int);
                match &e.value {
                    ParamValue::Str(s) => {
                        return Some(s);
                    },
                    ParamValue::Other => {
                        return None;
                    },
                }
            }
            i = i + 1;
        }
        None
    }
}

/// Builds a well-formed success response echoing the request
/// identifier.
pub fn success_response(id: &Option<String>, content: String) -> (r: MCPResponse)
    ensures
        response_well_formed(r),
        r.jsonrpc@ == supported_version(),
        opt_view(r.id) == opt_view(*id),
        match r.result {
            Some(res) => res.content == content,
            None => false,
        },
        r.error is None,
{
    MCPResponse {
        jsonrpc: "2.0".to_owned(),
        id: crate::models::clone_opt_string(id),
        result: Some(MCPResult { content, metadata: None }),
        error: None,
    }
}

/// Builds a well-formed error response echoing the request identifier.
pub fn error_response(id: &Option<String>, code: i32, message: String) -> (r: MCPResponse)
    ensures
        response_well_formed(r),
        r.jsonrpc@ == supported_version(),
        opt_view(r.id) == opt_view(*id),
        r.result is None,
        match r.error {
            Some(e) => e.code == code && e.message == message && e.data is None,
            None => false,
        },
{
    MCPResponse {
        jsonrpc: "2.0".to_owned(),
        id: crate::models::clone_opt_string(id),
        result: None,
        error: Some(MCPError { code, message, data: None }),
    }
}

/// The response a transport sends for unparseable JSON; built here so
/// the parse-failure code stays beside the other codes.
pub fn parse_error_response() -> (r: MCPResponse)
    ensures
        response_well_formed(r),
        r.result is None,
        match r.error {
            Some(e) => e.code == ERROR_PARSE,
            None => false,
        },
{
    error_response(&None, ERROR_PARSE, "Parse error".to_owned())
}

} // verus!
