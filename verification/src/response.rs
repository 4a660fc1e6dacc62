//! The head of a response: status line, headers and the blank line that ends
//! them.

use crate::decimal::{decimal, decimal_text};
use vstd::prelude::*;
use vstd::string::*;

verus! {

/// The status of a response.
#[derive(Clone, Copy, Debug, PartialEq, Eq, Structural)]
pub enum Status {
    Success,
    BadRequest,
    InternalError,
}

/// A response as it goes out: the head, then the body directly behind it.
pub struct Response {
    pub head: String,
    pub body: Vec<u8>,
}

/// Code and reason of a status, as the status line names them.
pub open spec fn status_text(status: Status) -> Seq<char> {
    match status {
        Status::Success => "200 OK"@,
        Status::BadRequest => "400 Bad Request"@,
        Status::InternalError => "500 Internal Server Error"@,
    }
}

/// The header that names a content type, or nothing where there is none.
pub open spec fn content_type_header(content_type: Option<Seq<char>>) -> Seq<char> {
    match content_type {
        Some(name) => "Content-Type: "@ + name + "\r\n"@,
        None => Seq::empty(),
    }
}

/// The header that gives the body's length in bytes, or nothing where no
/// length is announced.
pub open spec fn content_length_header(length: Option<nat>) -> Seq<char> {
    match length {
        Some(n) => "Content-Length: "@ + decimal(n) + "\r\n"@,
        None => Seq::empty(),
    }
}

/// The head of a response: the status line, the headers that apply, and a
/// blank line.
pub open spec fn head_text(
    status: Status,
    content_type: Option<Seq<char>>,
    length: Option<nat>,
) -> Seq<char> {
    "HTTP/1.1 "@ + status_text(status) + "\r\n"@ + content_type_header(content_type)
        + content_length_header(length) + "\r\n"@
}

/// The head and body that answer a request for an image, given what reading
/// the image file gave: its bytes under status 200, or an empty body under
/// status 500 where it could not be read. The announced length is that of
/// the body either way.
pub open spec fn image_answer(content_type: Seq<char>, file: Option<Seq<u8>>) -> (Seq<char>, Seq<u8>) {
    match file {
        Some(bytes) => (head_text(Status::Success, Some(content_type), Some(bytes.len())), bytes),
        None => (head_text(Status::InternalError, Some(content_type), Some(0)), Seq::empty()),
    }
}

/// Code and reason of `status`.
pub fn status_line(status: Status) -> (r: &'static str)
    ensures
        r@ == status_text(status),
{
    match status {
        Status::Success => "200 OK",
        Status::BadRequest => "400 Bad Request",
        Status::InternalError => "500 Internal Server Error",
    }
}

/// Starts a head: the status line and, where one is given, the content type.
fn open_head(code: Status, content_type: Option<&str>) -> (head: String)
    ensures
        head@ == "HTTP/1.1 "@ + status_text(code) + "\r\n"@ + content_type_header(
            match content_type {
                Some(name) => Some(name@),
                None => None,
            },
        ),
{
    let mut head = String::new();
    head.append("HTTP/1.1 ");
    head.append(status_line(code));
    head.append("\r\n");
    match content_type {
        Some(name) => {
            let ghost before = head@;
            head.append("Content-Type: ");
            head.append(name);
            head.append("\r\n");
            proof {
                assert(head@ =~= before + ("Content-Type: "@ + name@ + "\r\n"@));
            }
        },
        None => {
            proof {
                assert(head@ =~= head@ + Seq::<char>::empty());
            }
        },
    }
    head
}

/// The head of a response without a body: the status line, the content type
/// where one is given, and the blank line.
pub fn respond(code: Status, content_type: Option<&str>) -> (head: String)
    ensures
        head@ == head_text(
            code,
            match content_type {
                Some(name) => Some(name@),
                None => None,
            },
            None,
        ),
{
    let mut head = open_head(code, content_type);
    let ghost before = head@;
    head.append("\r\n");
    proof {
        assert(head@ =~= before + Seq::<char>::empty() + "\r\n"@);
    }
    head
}

/// The response to a request for an image. `file` is what reading the image
/// gave: `None` where it could not be read.
pub fn image_response(content_type: &str, file: Option<Vec<u8>>) -> (r: Response)
    ensures
        (r.head@, r.body@) == image_answer(
            content_type@,
            match file {
                Some(bytes) => Some(bytes@),
                None => None,
            },
        ),
{
    let (status, body) = match file {
        Some(bytes) => (Status::Success, bytes),
        None => (Status::InternalError, Vec::new()),
    };
    let mut head = open_head(status, Some(content_type));
    let ghost before = head@;
    let length = decimal_text(body.len());
    head.append("Content-Length: ");
    head.append(length.as_str());
    head.append("\r\n");
    head.append("\r\n");
    proof {
        assert(head@ =~= before + ("Content-Length: "@ + decimal(body@.len()) + "\r\n"@) + "\r\n"@);
    }
    Response { head, body }
}

} // verus!
