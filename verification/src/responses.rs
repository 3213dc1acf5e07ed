//! The answers the service gives on the wire.

use vstd::prelude::*;
use vstd::string::{StrSliceExecFns, StringExecFns, StringSliceAdditionalSpecFns};

verus! {

/// Answer to a request with a method other than GET or POST.
pub const METHOD_NOT_ALLOWED: &'static str =
    "HTTP/1.1 405 Method Not Allowed\nContent-Type: application/json\n\n{\"message\": \"Method Not Allowed\"}";

/// Answer to a request that cannot be read at all.
pub const BAD_REQUEST: &'static str =
    "HTTP/1.1 400 Bad Request\nContent-Type: application/json\n\n{\"message\": \"Bad Request\"}}";

/// Answer when no account has the requested id.
pub const NOT_FOUND: &'static str =
    "HTTP/1.1 404 Not Found\nContent-Type: application/json\n\n{\"message\": \"Not Found\"}";

/// Answer to a request the ledger rejects.
pub const UNPROCESSABLE_ENTITY: &'static str =
    "HTTP/1.1 422 Unprocessable Entity\nContent-Type: application/json\n\n{\"message\": \"Unprocessable Entity\"}";

/// Answer when storage or encoding failed.
pub const INTERNAL_SERVER_ERROR: &'static str =
    "HTTP/1.1 500 Internal Server Error\nContent-Type: application/json\n\n{\"message\": \"Internal Server Error\"}";

/// Status line and headers that precede the body of a successful answer.
pub const OK_HEAD: &'static str = "HTTP/1.1 200 OK\nContent-Type: application/json\n\n";

/// What to answer to a request.
#[derive(Debug, PartialEq, Eq)]
pub enum ResponseType {
    /// Success; holds the JSON body.
    Success(String),
    /// A failure on the service's side; holds the text to log.
    InternalServerError(String),
    NotFound,
    MethodNotAllowed,
    UnprocessableEntity,
}

/// The text that goes on the wire for a response.
pub open spec fn wire_text(response: ResponseType) -> Seq<char> {
    match response {
        ResponseType::Success(body) => OK_HEAD@ + body@,
        ResponseType::InternalServerError(_) => INTERNAL_SERVER_ERROR@,
        ResponseType::NotFound => NOT_FOUND@,
        ResponseType::MethodNotAllowed => METHOD_NOT_ALLOWED@,
        ResponseType::UnprocessableEntity => UNPROCESSABLE_ENTITY@,
    }
}

/// The bytes to write to the connection for `response`: the UTF-8 text of
/// [`wire_text`].
pub fn respond(response: ResponseType) -> (bytes: Vec<u8>)
    ensures
        bytes@ == vstd::utf8::encode_utf8(wire_text(response)),
{
    match response {
        ResponseType::Success(response_body) => {
            let text = String::from_str(OK_HEAD).concat(response_body.as_str());
            text.as_str().as_bytes_vec()
        },
        ResponseType::InternalServerError(_) => INTERNAL_SERVER_ERROR.as_bytes_vec(),
        ResponseType::NotFound => NOT_FOUND.as_bytes_vec(),
        ResponseType::MethodNotAllowed => METHOD_NOT_ALLOWED.as_bytes_vec(),
        ResponseType::UnprocessableEntity => UNPROCESSABLE_ENTITY.as_bytes_vec(),
    }
}

/// The response that carries a body once it was turned into JSON.
///
/// `serialized` is the JSON text, or the text of the error that kept it
/// from being written.
pub fn json_response(serialized: Result<String, String>) -> (response: ResponseType)
    ensures
        match serialized {
            Ok(body) => response == ResponseType::Success(body),
            Err(error) => response matches ResponseType::InternalServerError(text) && text@
                == "Error serializing response: "@ + error@,
        },
{
    match serialized {
        Ok(body) => ResponseType::Success(body),
        Err(error) => ResponseType::InternalServerError(
            String::from_str("Error serializing response: ").concat(error.as_str()),
        ),
    }
}

/// Which handler a request goes to.
#[derive(Clone, Copy, Debug, PartialEq, Eq, Structural)]
pub enum Route {
    /// A statement is asked for.
    Statement,
    /// A transaction is submitted.
    Transaction,
    /// Neither: answer `MethodNotAllowed`.
    NotAllowed,
}

/// The route of a request whose first bytes are `head`: `GET` (bytes 71,
/// 69, 84) asks for a statement, `POST` (80, 79, 83, 84) submits a
/// transaction.
pub open spec fn route_of(head: Seq<u8>) -> Route {
    if head.subrange(0, 3) == seq![71u8, 69u8, 84u8] {
        Route::Statement
    } else if head.subrange(0, 4) == seq![80u8, 79u8, 83u8, 84u8] {
        Route::Transaction
    } else {
        Route::NotAllowed
    }
}

/// Picks the handler by the request's method.
pub fn handle_request(request: &[u8; 512]) -> (route: Route)
    ensures
        route == route_of(request@),
{
    if request[0] == 71 && request[1] == 69 && request[2] == 84 {
        assert(request@.subrange(0, 3) =~= seq![71u8, 69u8, 84u8]);
        return Route::Statement;
    }
    if request[0] == 80 && request[1] == 79 && request[2] == 83 && request[3] == 84 {
        assert(request@.subrange(0, 4) =~= seq![80u8, 79u8, 83u8, 84u8]);
        return Route::Transaction;
    }
    proof {
        let get = seq![71u8, 69u8, 84u8];
        let post = seq![80u8, 79u8, 83u8, 84u8];
        if request@.subrange(0, 3) == get {
            assert(request@.subrange(0, 3)[0] == get[0]);
            assert(request@.subrange(0, 3)[1] == get[1]);
            assert(request@.subrange(0, 3)[2] == get[2]);
        }
        if request@.subrange(0, 4) == post {
            assert(request@.subrange(0, 4)[0] == post[0]);
            assert(request@.subrange(0, 4)[1] == post[1]);
            assert(request@.subrange(0, 4)[2] == post[2]);
            assert(request@.subrange(0, 4)[3] == post[3]);
        }
    }
    Route::NotAllowed
}

} // verus!
