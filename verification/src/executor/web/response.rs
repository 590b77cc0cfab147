use crate::response::{mime_of, mime_type_of};
use crate::text::{append, append_decimal, append_digits, append_str, decimal};
use vstd::prelude::*;
use vstd::utf8::encode_utf8;

verus! {

/// The status code that is sent for `code`: the code itself where it is one
/// of those that this server answers with, and 501 for every other.
pub open spec fn sent_code(code: i32) -> i32 {
    if code == 200 || code == 400 || code == 404 {
        code
    } else {
        501
    }
}

/// The status code that is sent for `code`.
pub fn status_code(code: i32) -> (sent: i32)
    ensures
        sent == sent_code(code),
{
    if code == 200 || code == 400 || code == 404 {
        code
    } else {
        501
    }
}

/// The reason phrase that goes with a status code.
pub open spec fn status_text(code: i32) -> Seq<char> {
    if code == 200 {
        "OK"@
    } else if code == 400 {
        "Bad Request"@
    } else if code == 404 {
        "Not Found"@
    } else {
        "Not Implemented"@
    }
}

/// The reason phrase that goes with a status code.
pub fn status(code: i32) -> (s: &'static str)
    ensures
        s@ == status_text(code),
{
    if code == 200 {
        "OK"
    } else if code == 400 {
        "Bad Request"
    } else if code == 404 {
        "Not Found"
    } else {
        "Not Implemented"
    }
}

/// The head of a response that serves a file: the status line, the content
/// type that goes with the name of the file, the length of its contents,
/// and the empty line that ends the head.
pub open spec fn head(code: i32, path: Seq<char>, length: nat) -> Seq<u8> {
    encode_utf8("HTTP/1.1 "@) + decimal(sent_code(code) as int) + encode_utf8(" "@) + encode_utf8(
        status_text(code),
    ) + encode_utf8("\r\nContent-Type: "@) + encode_utf8(mime_of(path)) + encode_utf8(
        "\r\nContent-Length: "@,
    ) + decimal(length as int) + encode_utf8("\r\n\r\n"@)
}

/// A response under construction. Its view is the bytes written so far.
pub struct Response {
    out: Vec<u8>,
}

impl View for Response {
    type V = Seq<u8>;

    closed spec fn view(&self) -> Seq<u8> {
        self.out@
    }
}

impl Response {
    /// A response of which nothing is written yet.
    pub fn new() -> (r: Response)
        ensures
            r@ == Seq::<u8>::empty(),
    {
        Response { out: Vec::new() }
    }

    /// The bytes that were written.
    pub fn into_inner(self) -> (bytes: Vec<u8>)
        ensures
            bytes@ == self@,
    {
        self.out
    }

    /// The content type that is served for the file name `key`.
    pub fn mime_type(&self, key: &str) -> (m: &'static str)
        ensures
            m@ == mime_of(key@),
    {
        mime_type_of(key)
    }

    /// Writes the response that serves the file at `path`, whose bytes are
    /// `contents`, under the status `code`: the head, then the contents.
    pub fn send_file(&mut self, code: i32, path: &str, contents: &[u8])
        ensures
            final(self)@ == old(self)@ + head(code, path@, contents@.len()) + contents@,
    {
        let mime_type = self.mime_type(path);
        let mut response: Vec<u8> = Vec::new();
        append_str(&mut response, "HTTP/1.1 ");
        append_decimal(&mut response, status_code(code) as i64);
        append_str(&mut response, " ");
        append_str(&mut response, status(code));
        append_str(&mut response, "\r\nContent-Type: ");
        append_str(&mut response, mime_type);
        append_str(&mut response, "\r\nContent-Length: ");
        append_digits(&mut response, contents.len() as u64);
        append_str(&mut response, "\r\n\r\n");
        assert(response@ =~= head(code, path@, contents@.len()));
        append(&mut self.out, response.as_slice());
        append(&mut self.out, contents);
    }
}

} // verus!
