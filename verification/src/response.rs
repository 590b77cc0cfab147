use crate::text::{append, append_decimal, append_str, chars_of, decimal, last_index, rfind};
use vstd::prelude::*;
use vstd::string::StrSliceExecFns;
use vstd::string::StringSliceAdditionalSpecFns;
use vstd::utf8::encode_utf8;

verus! {

/// The reason phrase that goes with a status code.
pub open spec fn status_text(code: i32) -> Seq<char> {
    if code == 200 {
        "OK"@
    } else if code == 400 {
        "Bad Request"@
    } else if code == 404 {
        "Not Found"@
    } else if code == 500 {
        "Internal Server Error"@
    } else {
        "Unknown"@
    }
}

/// The reason phrase that goes with a status code.
pub fn status(code: i32) -> (s: &'static str)
    ensures
        s@ == status_text(code),
{
    if code == 200 {
        "OK"
    } else if code == 400 {
        "Bad Request"
    } else if code == 404 {
        "Not Found"
    } else if code == 500 {
        "Internal Server Error"
    } else {
        "Unknown"
    }
}

/// What follows the last dot of a file name, if the name has a dot.
pub open spec fn file_extension(key: Seq<char>) -> Option<Seq<char>> {
    match last_index(key, '.') {
        Some(i) => Some(key.subrange(i + 1, key.len() as int)),
        None => None,
    }
}

/// The content type that is served for a file extension.
pub open spec fn content_type(ext: Seq<char>) -> Seq<char> {
    if ext == "html"@ {
        "text/html; charset=utf-8"@
    } else if ext == "css"@ {
        "text/css; charset=utf-8"@
    } else if ext == "js"@ {
        "text/javascript; charset=utf-8"@
    } else if ext == "png"@ {
        "image/png"@
    } else if ext == "jpg"@ {
        "image/jpeg"@
    } else if ext == "jpeg"@ {
        "image/jpeg"@
    } else if ext == "gif"@ {
        "image/gif"@
    } else if ext == "svg"@ {
        "image/svg+xml"@
    } else if ext == "ico"@ {
        "image/x-icon"@
    } else if ext == "json"@ {
        "application/json"@
    } else if ext == "pdf"@ {
        "application/pdf"@
    } else if ext == "zip"@ {
        "application/zip"@
    } else if ext == "tar"@ {
        "application/x-tar"@
    } else if ext == "gz"@ {
        "application/gzip"@
    } else if ext == "mp3"@ {
        "audio/mpeg"@
    } else if ext == "mp4"@ {
        "video/mp4"@
    } else if ext == "webm"@ {
        "video/webm"@
    } else if ext == "ogg"@ {
        "audio/ogg"@
    } else if ext == "ogv"@ {
        "video/ogg"@
    } else if ext == "wav"@ {
        "audio/wav"@
    } else if ext == "webp"@ {
        "image/webp"@
    } else if ext == "txt"@ {
        "text/plain; charset=utf-8"@
    } else {
        "application/octet-stream"@
    }
}

/// The content type that is served for a file name: that of its extension,
/// and the type of arbitrary bytes where it has none.
pub open spec fn mime_of(key: Seq<char>) -> Seq<char> {
    match file_extension(key) {
        Some(ext) => content_type(ext),
        None => "application/octet-stream"@,
    }
}

fn content_type_of(ext: &str) -> (m: &'static str)
    ensures
        m@ == content_type(ext@),
{
    if *ext == *"html" {
        "text/html; charset=utf-8"
    } else if *ext == *"css" {
        "text/css; charset=utf-8"
    } else if *ext == *"js" {
        "text/javascript; charset=utf-8"
    } else if *ext == *"png" {
        "image/png"
    } else if *ext == *"jpg" {
        "image/jpeg"
    } else if *ext == *"jpeg" {
        "image/jpeg"
    } else if *ext == *"gif" {
        "image/gif"
    } else if *ext == *"svg" {
        "image/svg+xml"
    } else if *ext == *"ico" {
        "image/x-icon"
    } else if *ext == *"json" {
        "application/json"
    } else if *ext == *"pdf" {
        "application/pdf"
    } else if *ext == *"zip" {
        "application/zip"
    } else if *ext == *"tar" {
        "application/x-tar"
    } else if *ext == *"gz" {
        "application/gzip"
    } else if *ext == *"mp3" {
        "audio/mpeg"
    } else if *ext == *"mp4" {
        "video/mp4"
    } else if *ext == *"webm" {
        "video/webm"
    } else if *ext == *"ogg" {
        "audio/ogg"
    } else if *ext == *"ogv" {
        "video/ogg"
    } else if *ext == *"wav" {
        "audio/wav"
    } else if *ext == *"webp" {
        "image/webp"
    } else if *ext == *"txt" {
        "text/plain; charset=utf-8"
    } else {
        "application/octet-stream"
    }
}

/// The content type that is served for the file name `key`.
pub fn mime_type_of(key: &str) -> (m: &'static str)
    ensures
        m@ == mime_of(key@),
{
    let chars = chars_of(key);
    match rfind(&chars, '.') {
        Some(i) => {
            let ext = key.substring_char(i + 1, chars.len());
            content_type_of(ext)
        },
        None => "application/octet-stream",
    }
}

/// The first line of a response: protocol version, status code and reason.
pub open spec fn status_line(code: i32) -> Seq<u8> {
    encode_utf8("HTTP/1.1 "@) + decimal(code as int) + encode_utf8(" "@) + encode_utf8(
        status_text(code),
    ) + encode_utf8("\r\n"@)
}

/// One header line: name, colon, space, value, line end.
pub open spec fn header_line(key: Seq<u8>, val: Seq<u8>) -> Seq<u8> {
    key + encode_utf8(": "@) + val + encode_utf8("\r\n"@)
}

/// The end of a response: the header that gives the length of the body, the
/// empty line that ends the headers, and the body.
pub open spec fn body_block(val: Seq<u8>) -> Seq<u8> {
    header_line(encode_utf8("content-length"@), decimal(val.len() as int)) + encode_utf8(
        "\r\n"@,
    ) + val
}

/// What `write_file` writes for the file at `path` with these `contents`:
/// the header that gives the content type, then the body block.
pub open spec fn file_block(path: Seq<char>, contents: Seq<u8>) -> Seq<u8> {
    header_line(encode_utf8("content-type"@), encode_utf8(mime_of(path))) + body_block(contents)
}

/// A whole response that serves a file.
pub open spec fn file_response(code: i32, path: Seq<char>, contents: Seq<u8>) -> Seq<u8> {
    status_line(code) + file_block(path, contents)
}

/// A response under construction. Its view is the bytes written so far.
pub struct Response {
    writer: Vec<u8>,
}

impl View for Response {
    type V = Seq<u8>;

    closed spec fn view(&self) -> Seq<u8> {
        self.writer@
    }
}

impl Response {
    /// A response of which nothing is written yet.
    pub fn new() -> (r: Response)
        ensures
            r@ == Seq::<u8>::empty(),
    {
        Response { writer: Vec::new() }
    }

    /// The bytes that were written.
    pub fn into_inner(self) -> (bytes: Vec<u8>)
        ensures
            bytes@ == self@,
    {
        self.writer
    }

    /// Writes the status line and returns its length.
    pub fn write_status(&mut self, code: i32) -> (n: usize)
        ensures
            final(self)@ == old(self)@ + status_line(code),
            n == status_line(code).len(),
    {
        let mut line: Vec<u8> = Vec::new();
        append_str(&mut line, "HTTP/1.1 ");
        append_decimal(&mut line, code as i64);
        append_str(&mut line, " ");
        append_str(&mut line, status(code));
        append_str(&mut line, "\r\n");
        assert(line@ =~= status_line(code));
        append(&mut self.writer, line.as_slice());
        line.len()
    }

    fn write_header_bytes(&mut self, key: &[u8], val: &[u8]) -> (n: usize)
        ensures
            final(self)@ == old(self)@ + header_line(key@, val@),
            n == header_line(key@, val@).len(),
    {
        let mut line: Vec<u8> = Vec::new();
        append(&mut line, key);
        append_str(&mut line, ": ");
        append(&mut line, val);
        append_str(&mut line, "\r\n");
        assert(line@ =~= header_line(key@, val@));
        append(&mut self.writer, line.as_slice());
        line.len()
    }

    /// Writes one header line and returns its length.
    pub fn write_header(&mut self, key: &str, val: &str) -> (n: usize)
        ensures
            final(self)@ == old(self)@ + header_line(key.spec_bytes(), val.spec_bytes()),
            n == header_line(key.spec_bytes(), val.spec_bytes()).len(),
    {
        self.write_header_bytes(key.as_bytes(), val.as_bytes())
    }

    /// Writes the header that gives the length of the body, the empty line
    /// and the body, and returns the length of the body.
    pub fn write_body(&mut self, val: &[u8]) -> (n: usize)
        ensures
            final(self)@ == old(self)@ + body_block(val@),
            n == val@.len(),
    {
        let mut length: Vec<u8> = Vec::new();
        append_digits_of(&mut length, val.len());
        self.write_header_bytes("content-length".as_bytes(), length.as_slice());
        append_str(&mut self.writer, "\r\n");
        append(&mut self.writer, val);
        assert(self@ =~= old(self)@ + body_block(val@));
        val.len()
    }

    /// The content type that is served for the file name `key`.
    pub fn mime_type(&self, key: &str) -> (m: &'static str)
        ensures
            m@ == mime_of(key@),
    {
        mime_type_of(key)
    }

    /// Writes the headers and the body that serve the file at `path`, whose
    /// bytes are `contents`, and returns the length of the body.
    pub fn write_file(&mut self, path: &str, contents: &[u8]) -> (n: usize)
        ensures
            final(self)@ == old(self)@ + file_block(path@, contents@),
            n == contents@.len(),
    {
        let mime = self.mime_type(path);
        self.write_header("content-type", mime);
        let n = self.write_body(contents);
        assert(self@ =~= old(self)@ + file_block(path@, contents@));
        n
    }

    /// Writes the whole response that serves the file at `path`, whose bytes
    /// are `contents`, under the status `code`.
    pub fn sendfile(&mut self, code: i32, path: &str, contents: &[u8])
        ensures
            final(self)@ == old(self)@ + file_response(code, path@, contents@),
    {
        self.write_status(code);
        self.write_file(path, contents);
        assert(self@ =~= old(self)@ + file_response(code, path@, contents@));
    }
}

/// Puts the decimal form of a length at the end of `out`.
fn append_digits_of(out: &mut Vec<u8>, n: usize)
    ensures
        final(out)@ == old(out)@ + decimal(n as int),
{
    crate::text::append_digits(out, n as u64);
}

} // verus!
