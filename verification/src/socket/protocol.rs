//! JSON-RPC 2.0 requests and responses.

use vstd::prelude::*;

use crate::socket::json::{optional_json, Json, JsonModel};
use crate::text::{join2, same_text};

verus! {

/// The request was no JSON or no request.
pub const PARSE_ERROR: i32 = -32700;

/// The request was not one of this protocol.
pub const INVALID_REQUEST: i32 = -32600;

/// The method is not known, or not available.
pub const METHOD_NOT_FOUND: i32 = -32601;

/// A parameter is missing or not usable.
pub const INVALID_PARAMS: i32 = -32602;

/// The request failed.
pub const INTERNAL_ERROR: i32 = -32603;

/// A request.
#[derive(Debug, PartialEq, Eq)]
pub struct Request {
    pub jsonrpc: String,
    pub method: String,
    pub params: Json,
    pub id: Option<Json>,
}

/// A response: a result or an error.
#[derive(Debug, PartialEq, Eq)]
pub struct Response {
    pub jsonrpc: String,
    pub result: Option<Json>,
    pub error: Option<RpcError>,
    pub id: Option<Json>,
}

/// Why a request was refused.
#[derive(Debug, PartialEq, Eq)]
pub struct RpcError {
    pub code: i32,
    pub message: String,
    pub data: Option<Json>,
}

/// A response as a mathematical value.
pub ghost struct ResponseModel {
    pub jsonrpc: Seq<char>,
    pub result: Option<JsonModel>,
    pub error: Option<ErrorModel>,
    pub id: Option<JsonModel>,
}

/// An error as a mathematical value.
pub ghost struct ErrorModel {
    pub code: i32,
    pub message: Seq<char>,
    pub data: Option<JsonModel>,
}

impl View for RpcError {
    type V = ErrorModel;

    open spec fn view(&self) -> ErrorModel {
        ErrorModel { code: self.code, message: self.message@, data: optional_json(self.data) }
    }
}

impl View for Response {
    type V = ResponseModel;

    open spec fn view(&self) -> ResponseModel {
        ResponseModel {
            jsonrpc: self.jsonrpc@,
            result: optional_json(self.result),
            error: match self.error {
                Some(e) => Some(e@),
                None => None,
            },
            id: optional_json(self.id),
        }
    }
}

/// The response with a result.
pub open spec fn success_model(id: Option<JsonModel>, result: JsonModel) -> ResponseModel {
    ResponseModel { jsonrpc: "2.0"@, result: Some(result), error: None, id }
}

/// The response with an error.
pub open spec fn error_model(id: Option<JsonModel>, code: i32, message: Seq<char>) -> ResponseModel {
    ResponseModel {
        jsonrpc: "2.0"@,
        result: None,
        error: Some(ErrorModel { code, message, data: None }),
        id,
    }
}

impl Response {
    /// A response with a result.
    pub fn success(id: Option<Json>, result: Json) -> (r: Response)
        ensures
            r@ == success_model(optional_json(id), result@),
    {
        Response { jsonrpc: "2.0".to_owned(), result: Some(result), error: None, id }
    }

    /// A response with an error.
    pub fn error(id: Option<Json>, code: i32, message: String) -> (r: Response)
        ensures
            r@ == error_model(optional_json(id), code, message@),
    {
        Response {
            jsonrpc: "2.0".to_owned(),
            result: None,
            error: Some(RpcError { code, message, data: None }),
            id,
        }
    }
}

impl Request {
    /// Checks a request that was read from a line of text, or answers why there
    /// is none: the words of the parser, a protocol version other than 2.0, or
    /// an empty method.
    pub fn parse(read: Result<Request, String>) -> (r: Result<Request, Response>)
        ensures
            match read {
                Err(words) => r matches Err(e) && e@ == error_model(
                    None,
                    PARSE_ERROR,
                    "Parse error: "@ + words@,
                ),
                Ok(request) => if request.jsonrpc@ != "2.0"@ {
                    r matches Err(e) && e@ == error_model(
                        optional_json(request.id),
                        INVALID_REQUEST,
                        "Invalid JSON-RPC version, expected \"2.0\""@,
                    )
                } else if request.method@.len() == 0 {
                    r matches Err(e) && e@ == error_model(
                        optional_json(request.id),
                        INVALID_REQUEST,
                        "Method must not be empty"@,
                    )
                } else {
                    r == Ok::<Request, Response>(request)
                },
            },
    {
        match read {
            Err(words) => Err(
                Response::error(None, PARSE_ERROR, join2("Parse error: ", words.as_str())),
            ),
            Ok(request) => {
                if !same_text(request.jsonrpc.as_str(), "2.0") {
                    return Err(
                        Response::error(
                            request.id,
                            INVALID_REQUEST,
                            "Invalid JSON-RPC version, expected \"2.0\"".to_owned(),
                        ),
                    );
                }
                if request.method.as_str().is_empty() {
                    return Err(
                        Response::error(
                            request.id,
                            INVALID_REQUEST,
                            "Method must not be empty".to_owned(),
                        ),
                    );
                }
                Ok(request)
            },
        }
    }
}

} // verus!
