use vstd::prelude::*;

use crate::error::HttpError;
use crate::hex::{url_decoded, url_decoding};
use crate::request::{header_parts, parse_request_line, request_line_parts, RequestHeader};
use crate::resolve::{resolve, resolved};
use crate::response::{is_failed_response, is_ok_response, send_failed, send_ok, HttpStatus, Response};
use crate::text::{lower_of, lowercase};

verus! {

/// Whether a method names GET, in any case.
pub open spec fn is_get(m: Seq<char>) -> bool {
    lower_of(m) == "get"@
}

/// A GET request that was read in full.
pub struct GetRequest {
    /// The decoded request target.
    pub path: String,
    pub headers: RequestHeader,
}

impl GetRequest {
    /// The file the request names under `root`.
    pub fn file_path(&self, root: &str, index_page: &str) -> (r: String)
        ensures
            r@ == resolved(root@, self.path@, index_page@),
    {
        resolve(root, self.path.as_str(), index_page)
    }
}

/// What looking up the file of a GET request found.
pub enum Lookup {
    /// A regular file of `len` bytes, opened.
    Found { len: u64 },
    /// No regular file; `page_len` is the length of the configured 404 page,
    /// when one could be opened.
    Missing { page_len: Option<u64> },
    /// Resolving or opening failed; `page_len` is the length of the configured
    /// 500 page, when one could be opened.
    Failed { page_len: Option<u64> },
}

/// The response to a GET request: the file with status 200 when it was found,
/// else the page of status 404 when it is missing, or of status 500 when the
/// lookup failed.
pub fn get(request: &GetRequest, lookup: Lookup) -> (r: Response)
    ensures
        lookup matches Lookup::Found { len } ==> is_ok_response(r, request.headers@, len),
        lookup matches Lookup::Missing { page_len } ==> is_failed_response(
            r,
            HttpStatus::NotFound,
            page_len,
        ),
        lookup matches Lookup::Failed { page_len } ==> is_failed_response(
            r,
            HttpStatus::InternalServerError,
            page_len,
        ),
{
    match lookup {
        Lookup::Found { len } => send_ok(&request.headers, len),
        Lookup::Missing { page_len } => send_failed(HttpStatus::NotFound, page_len),
        Lookup::Failed { page_len } => send_failed(HttpStatus::InternalServerError, page_len),
    }
}

/// Where one connection stands while its request is read.
pub enum Handler {
    /// Nothing read yet.
    AwaitRequestLine,
    /// The request line was read; header lines follow up to an empty line.
    AwaitHeaders { method: String, path: String, headers: RequestHeader },
    /// No more lines are wanted.
    Finished,
}

/// Why a connection closes without a response.
pub enum CloseReason {
    /// The request was empty.
    Empty,
    /// A line could not be read.
    ReadFailed(HttpError),
    /// The request line lacks a method or a target, or the target does not decode.
    BadRequest(HttpError),
    /// A header line has no colon.
    BadHeader(HttpError),
    /// The method, which is not GET.
    Unsupported(String),
    /// The handler had already finished.
    Done,
}

/// What the connection does next.
pub enum Next {
    /// Read one more line and hand it to the handler.
    ReadLine,
    /// Close the connection without sending anything.
    Close(CloseReason),
    /// Answer this GET request, then close.
    Get(GetRequest),
}

impl Handler {
    pub fn new() -> (r: Handler)
        ensures
            r is AwaitRequestLine,
    {
        Handler::AwaitRequestLine
    }

    /// Takes the outcome of reading one line, and gives the next state and
    /// what to do.
    pub fn on_line(self, line: Result<Option<String>, HttpError>) -> (r: (Handler, Next))
        ensures
            self is Finished ==> r.0 is Finished && r.1 matches Next::Close(CloseReason::Done),
            !(self is Finished) ==> (line matches Err(e) ==> r.0 is Finished && r.1 == Next::Close(
                CloseReason::ReadFailed(e),
            )),
            self is AwaitRequestLine ==> (line matches Ok(None) ==> r.0 is Finished && r.1 matches Next::Close(
                CloseReason::Empty,
            )),
            self is AwaitRequestLine ==> (line matches Ok(Some(l)) ==> {
                let parts = request_line_parts(l@);
                if parts is None || url_decoded((parts->0).1) is None {
                    r.0 is Finished && r.1 matches Next::Close(CloseReason::BadRequest(_))
                } else {
                    &&& r.1 is ReadLine
                    &&& r.0 matches Handler::AwaitHeaders { method, path, headers }
                    &&& method@ == (parts->0).0
                    &&& path@ == url_decoded((parts->0).1)->0
                    &&& headers@ == Map::<Seq<char>, Seq<char>>::empty()
                }
            }),
            self matches Handler::AwaitHeaders { method, path, headers } ==> (line matches Ok(
                Some(l),
            ) ==> {
                let parts = header_parts(l@);
                if parts is None {
                    r.0 is Finished && (r.1 matches Next::Close(CloseReason::BadHeader(e))
                        && e.kind@ == "protocol"@)
                } else {
                    &&& r.1 is ReadLine
                    &&& r.0 matches Handler::AwaitHeaders { method: m2, path: p2, headers: h2 }
                    &&& m2@ == method@
                    &&& p2@ == path@
                    &&& h2@ == headers@.insert((parts->0).0, (parts->0).1)
                }
            }),
            self matches Handler::AwaitHeaders { method, path, headers } ==> (line matches Ok(None)
                ==> {
                &&& r.0 is Finished
                &&& is_get(method@) ==> (r.1 matches Next::Get(g) && g.path@ == path@ && g.headers@
                    == headers@)
                &&& !is_get(method@) ==> (r.1 matches Next::Close(CloseReason::Unsupported(m))
                    && m@ == method@)
            }),
    {
        match self {
            Handler::Finished => (Handler::Finished, Next::Close(CloseReason::Done)),
            Handler::AwaitRequestLine => match line {
                Ok(Some(l)) => match parse_request_line(l.as_str()) {
                    Ok((method, target)) => match url_decoding(target) {
                        Ok(path) => (
                            Handler::AwaitHeaders { method, path, headers: RequestHeader::new() },
                            Next::ReadLine,
                        ),
                        Err(e) => (Handler::Finished, Next::Close(CloseReason::BadRequest(e))),
                    },
                    Err(e) => (Handler::Finished, Next::Close(CloseReason::BadRequest(e))),
                },
                Ok(None) => (Handler::Finished, Next::Close(CloseReason::Empty)),
                Err(e) => (Handler::Finished, Next::Close(CloseReason::ReadFailed(e))),
            },
            Handler::AwaitHeaders { method, path, mut headers } => match line {
                Ok(Some(l)) => match headers.add_line(l.as_str()) {
                    Ok(()) => (Handler::AwaitHeaders { method, path, headers }, Next::ReadLine),
                    Err(e) => (Handler::Finished, Next::Close(CloseReason::BadHeader(e))),
                },
                Ok(None) => {
                    if lowercase(method.as_str()) == "get".to_owned() {
                        (Handler::Finished, Next::Get(GetRequest { path, headers }))
                    } else {
                        (Handler::Finished, Next::Close(CloseReason::Unsupported(method)))
                    }
                },
                Err(e) => (Handler::Finished, Next::Close(CloseReason::ReadFailed(e))),
            },
        }
    }
}

} // verus!
