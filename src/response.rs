use vstd::prelude::*;
use vstd::utf8::encode_utf8;

use crate::request::RequestHeader;
use crate::request::first_of_list;
use vstd::string::StringExecFns;

use crate::text::{decimal, decimal_string};

verus! {

/// The statuses a response can have.
#[derive(Clone, Copy, Debug, PartialEq, Eq, Structural)]
pub enum HttpStatus {
    OK,
    NotFound,
    InternalServerError,
}

pub open spec fn status_line(s: HttpStatus) -> Seq<char> {
    match s {
        HttpStatus::OK => "HTTP/1.0 200 OK\r\n"@,
        HttpStatus::NotFound => "HTTP/1.0 404 NOT FOUND\r\n"@,
        HttpStatus::InternalServerError => "HTTP/1.0 500 INTERNAL SERVER ERROR\r\n"@,
    }
}

/// The page sent with a status when no page of its own is configured.
pub open spec fn builtin_page(s: HttpStatus) -> Seq<char> {
    match s {
        HttpStatus::OK => ""@,
        HttpStatus::NotFound => "<!DOCTYPE html><head><title>404 NOT FOUND</title></head><body><h1>404 NOT FOUND!</h1></body></html>"@,
        HttpStatus::InternalServerError => "<!DOCTYPE html><head><title>500 INTERNAL SERVER ERROR</title></head><body><h1>500 INTERNAL SERVER ERROR!</h1></body></html>"@,
    }
}

impl HttpStatus {
    /// The status line, CRLF included.
    pub fn get_http_status(&self) -> (r: &'static str)
        ensures
            r@ == status_line(*self),
    {
        match self {
            HttpStatus::OK => "HTTP/1.0 200 OK\r\n",
            HttpStatus::NotFound => "HTTP/1.0 404 NOT FOUND\r\n",
            HttpStatus::InternalServerError => "HTTP/1.0 500 INTERNAL SERVER ERROR\r\n",
        }
    }

    /// The built-in page of this status.
    pub fn builtin_page(&self) -> (r: &'static str)
        ensures
            r@ == builtin_page(*self),
    {
        match self {
            HttpStatus::OK => "",
            HttpStatus::NotFound => "<!DOCTYPE html><head><title>404 NOT FOUND</title></head><body><h1>404 NOT FOUND!</h1></body></html>",
            HttpStatus::InternalServerError => "<!DOCTYPE html><head><title>500 INTERNAL SERVER ERROR</title></head><body><h1>500 INTERNAL SERVER ERROR!</h1></body></html>",
        }
    }

    /// The body sent with this status: the configured page of the status, when
    /// one could be opened (`custom_page_len` is then its length in bytes), else
    /// the built-in page. A success has an empty body of its own.
    pub fn get_status_default_html(&self, custom_page_len: Option<u64>) -> (r: Body)
        ensures
            *self != HttpStatus::OK && custom_page_len is Some ==> r == (Body::File {
                len: custom_page_len->0,
            }),
            *self == HttpStatus::OK || custom_page_len is None ==> (r matches Body::Text(t)
                && t@ == builtin_page(*self)),
    {
        match (self, custom_page_len) {
            (HttpStatus::OK, _) => Body::Text(self.builtin_page().to_owned()),
            (_, Some(len)) => Body::File { len },
            (_, None) => Body::Text(self.builtin_page().to_owned()),
        }
    }
}

/// What follows the header: a file, streamed, of which the library knows the
/// length, or a text written at once.
pub enum Body {
    File { len: u64 },
    Text(String),
}

pub open spec fn body_len(b: Body) -> nat {
    match b {
        Body::File { len } => len as nat,
        Body::Text(t) => encode_utf8(t@).len(),
    }
}

impl Body {
    /// The length of the body in bytes.
    pub fn len(&self) -> (r: u64)
        ensures
            r as nat == body_len(*self),
    {
        match self {
            Body::File { len } => *len,
            Body::Text(t) => t.as_str().as_bytes().len() as u64,
        }
    }
}

pub open spec fn field_lines(ps: Seq<(String, String)>) -> Seq<char>
    decreases ps.len(),
{
    if ps.len() == 0 {
        Seq::empty()
    } else {
        field_lines(ps.drop_last()) + ps.last().0@ + seq![':'] + ps.last().1@ + seq!['\r', '\n']
    }
}

/// A status line, one `name:value` line per field, and a blank line.
pub open spec fn header_text(s: HttpStatus, ps: Seq<(String, String)>) -> Seq<char> {
    status_line(s) + field_lines(ps) + seq!['\r', '\n']
}

/// The head of a response: its status and its header fields, in the order
/// they are sent.
pub struct ResponseHeader {
    pub http_status: HttpStatus,
    pub params: Vec<(String, String)>,
}

impl ResponseHeader {
    /// The text of the head, ready to send.
    pub fn get(self) -> (r: String)
        ensures
            r@ == header_text(self.http_status, self.params@),
    {
        let mut header = self.http_status.get_http_status().to_owned();
        let mut i: usize = 0;
        while i < self.params.len()
            invariant
                i <= self.params@.len(),
                header@ == status_line(self.http_status) + field_lines(
                    self.params@.subrange(0, i as int),
                ),
            decreases self.params@.len() - i,
        {
            let ghost before = header@;
            header.append(self.params[i].0.as_str());
            header.append(":");
            header.append(self.params[i].1.as_str());
            header.append("\r\n");
            proof {
                reveal_strlit(":");
                reveal_strlit("\r\n");
                assert(self.params@.subrange(0, i + 1).drop_last() =~= self.params@.subrange(
                    0,
                    i as int,
                ));
                assert(header@ =~= status_line(self.http_status) + field_lines(
                    self.params@.subrange(0, i + 1),
                ));
            }
            i += 1;
        }
        header.append("\r\n");
        proof {
            reveal_strlit("\r\n");
            assert(self.params@.subrange(0, self.params@.len() as int) =~= self.params@);
            assert(header@ =~= header_text(self.http_status, self.params@));
        }
        header
    }
}

/// A response: its head and its body.
pub struct Response {
    pub header: ResponseHeader,
    pub body: Body,
}

/// The media type of a successful response: the first type the client accepts,
/// else HTML; UTF-8 either way.
pub open spec fn content_type_for(accept: Option<Seq<char>>) -> Seq<char> {
    match accept {
        Some(a) => a + "; charset=utf-8"@,
        None => "text/html; charset=utf-8"@,
    }
}

pub open spec fn fields_say(ps: Seq<(String, String)>, content_type: Seq<char>, len: nat) -> bool {
    &&& ps.len() == 2
    &&& ps[0].0@ == "Content-Type"@
    &&& ps[0].1@ == content_type
    &&& ps[1].0@ == "Content-Length"@
    &&& ps[1].1@ == decimal(len)
}

fn fields(content_type: String, len: u64) -> (r: Vec<(String, String)>)
    ensures
        fields_say(r@, content_type@, len as nat),
{
    let mut ps: Vec<(String, String)> = Vec::new();
    ps.push(("Content-Type".to_owned(), content_type));
    ps.push(("Content-Length".to_owned(), decimal_string(len)));
    ps
}

/// The first media type a request accepts, if it names any.
pub open spec fn accept_of(h: Map<Seq<char>, Seq<char>>) -> Option<Seq<char>> {
    if h.contains_key("accept"@) {
        Some(first_of_list(h["accept"@]))
    } else {
        None
    }
}

/// `r` sends, with status 200, a file of `len` bytes as the media type the
/// request accepts first.
pub open spec fn is_ok_response(r: Response, h: Map<Seq<char>, Seq<char>>, len: u64) -> bool {
    &&& r.header.http_status == HttpStatus::OK
    &&& fields_say(r.header.params@, content_type_for(accept_of(h)), len as nat)
    &&& r.body == (Body::File { len })
}

/// `r` reports `status` with its page: the configured one of `page_len` bytes,
/// else the built-in one, as HTML with its exact length.
pub open spec fn is_failed_response(r: Response, status: HttpStatus, page_len: Option<u64>) -> bool {
    &&& r.header.http_status == status
    &&& status != HttpStatus::OK && page_len is Some ==> r.body == (Body::File { len: page_len->0 })
    &&& status == HttpStatus::OK || page_len is None ==> (r.body matches Body::Text(t) && t@
        == builtin_page(status))
    &&& fields_say(r.header.params@, "text/html; charset=utf-8"@, body_len(r.body))
}

/// The response that sends a file of `file_len` bytes.
pub fn send_ok(request_header: &RequestHeader, file_len: u64) -> (r: Response)
    ensures
        is_ok_response(r, request_header@, file_len),
{
    let content_type = match request_header.get_first_accept() {
        Some(accept) => {
            let mut t = accept;
            t.append("; charset=utf-8");
            t
        },
        None => "text/html; charset=utf-8".to_owned(),
    };
    let header = ResponseHeader { http_status: HttpStatus::OK, params: fields(content_type, file_len) };
    Response { header, body: Body::File { len: file_len } }
}

/// The response that reports a failure: its page, custom or built-in, as HTML
/// with its exact length. A success sent this way has an empty page.
pub fn send_failed(http_status: HttpStatus, custom_page_len: Option<u64>) -> (r: Response)
    ensures
        is_failed_response(r, http_status, custom_page_len),
{
    let body = http_status.get_status_default_html(custom_page_len);
    let len = body.len();
    let header = ResponseHeader {
        http_status,
        params: fields("text/html; charset=utf-8".to_owned(), len),
    };
    Response { header, body }
}

} // verus!
