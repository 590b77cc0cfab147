use reactor_core::executor::web::response as web;
use reactor_core::response::{mime_type_of, status, Response};

#[test]
fn status_gives_the_reason_phrase() {
    assert_eq!(status(200), "OK");
    assert_eq!(status(400), "Bad Request");
    assert_eq!(status(404), "Not Found");
    assert_eq!(status(500), "Internal Server Error");
    assert_eq!(status(501), "Unknown");
    assert_eq!(status(-1), "Unknown");
}

#[test]
fn mime_type_goes_by_the_last_extension() {
    assert_eq!(mime_type_of("static/index.html"), "text/html; charset=utf-8");
    assert_eq!(mime_type_of("a.css"), "text/css; charset=utf-8");
    assert_eq!(mime_type_of("a.js"), "text/javascript; charset=utf-8");
    assert_eq!(mime_type_of("a.png"), "image/png");
    assert_eq!(mime_type_of("a.jpg"), "image/jpeg");
    assert_eq!(mime_type_of("a.jpeg"), "image/jpeg");
    assert_eq!(mime_type_of("a.gif"), "image/gif");
    assert_eq!(mime_type_of("a.svg"), "image/svg+xml");
    assert_eq!(mime_type_of("a.ico"), "image/x-icon");
    assert_eq!(mime_type_of("a.json"), "application/json");
    assert_eq!(mime_type_of("a.pdf"), "application/pdf");
    assert_eq!(mime_type_of("a.zip"), "application/zip");
    assert_eq!(mime_type_of("a.tar"), "application/x-tar");
    assert_eq!(mime_type_of("a.gz"), "application/gzip");
    assert_eq!(mime_type_of("a.mp3"), "audio/mpeg");
    assert_eq!(mime_type_of("a.mp4"), "video/mp4");
    assert_eq!(mime_type_of("a.webm"), "video/webm");
    assert_eq!(mime_type_of("a.ogg"), "audio/ogg");
    assert_eq!(mime_type_of("a.ogv"), "video/ogg");
    assert_eq!(mime_type_of("a.wav"), "audio/wav");
    assert_eq!(mime_type_of("a.webp"), "image/webp");
    assert_eq!(mime_type_of("a.txt"), "text/plain; charset=utf-8");
    assert_eq!(mime_type_of("archive.tar.gz"), "application/gzip");
}

#[test]
fn mime_type_falls_back_to_arbitrary_bytes() {
    assert_eq!(mime_type_of("Makefile"), "application/octet-stream");
    assert_eq!(mime_type_of("a.HTML"), "application/octet-stream");
    assert_eq!(mime_type_of("a."), "application/octet-stream");
    assert_eq!(mime_type_of(""), "application/octet-stream");
    assert_eq!(mime_type_of("a.html/b"), "application/octet-stream");
    assert_eq!(Response::new().mime_type("x.png"), "image/png");
}

#[test]
fn write_status_writes_the_status_line() {
    let mut response = Response::new();
    let n = response.write_status(200);
    assert_eq!(n, 17);
    let m = response.write_status(404);
    assert_eq!(m, 24);
    assert_eq!(response.into_inner(), b"HTTP/1.1 200 OK\r\nHTTP/1.1 404 Not Found\r\n".to_vec());
}

#[test]
fn write_status_writes_negative_codes_with_their_sign() {
    let mut response = Response::new();
    response.write_status(-7);
    response.write_status(i32::MIN);
    assert_eq!(
        response.into_inner(),
        b"HTTP/1.1 -7 Unknown\r\nHTTP/1.1 -2147483648 Unknown\r\n".to_vec()
    );
}

#[test]
fn write_header_writes_one_line() {
    let mut response = Response::new();
    let n = response.write_header("content-type", "text/plain");
    assert_eq!(n, 26);
    assert_eq!(response.into_inner(), b"content-type: text/plain\r\n".to_vec());
}

#[test]
fn write_body_gives_the_length_first() {
    let mut response = Response::new();
    let n = response.write_body(b"hello world");
    assert_eq!(n, 11);
    assert_eq!(response.into_inner(), b"content-length: 11\r\n\r\nhello world".to_vec());
}

#[test]
fn write_body_of_nothing() {
    let mut response = Response::new();
    let n = response.write_body(b"");
    assert_eq!(n, 0);
    assert_eq!(response.into_inner(), b"content-length: 0\r\n\r\n".to_vec());
}

#[test]
fn write_file_gives_type_and_length() {
    let mut response = Response::new();
    let n = response.write_file("static/404.html", b"<h1>gone</h1>");
    assert_eq!(n, 13);
    assert_eq!(
        response.into_inner(),
        b"content-type: text/html; charset=utf-8\r\ncontent-length: 13\r\n\r\n<h1>gone</h1>".to_vec()
    );
}

#[test]
fn sendfile_writes_the_whole_response() {
    let mut response = Response::new();
    response.sendfile(200, "static/index.html", b"<p>hi</p>");
    assert_eq!(
        response.into_inner(),
        b"HTTP/1.1 200 OK\r\ncontent-type: text/html; charset=utf-8\r\ncontent-length: 9\r\n\r\n<p>hi</p>"
            .to_vec()
    );
}

#[test]
fn the_cooperative_server_sends_only_the_codes_it_knows() {
    assert_eq!(web::status_code(200), 200);
    assert_eq!(web::status_code(400), 400);
    assert_eq!(web::status_code(404), 404);
    assert_eq!(web::status_code(500), 501);
    assert_eq!(web::status_code(0), 501);
    assert_eq!(web::status(200), "OK");
    assert_eq!(web::status(400), "Bad Request");
    assert_eq!(web::status(404), "Not Found");
    assert_eq!(web::status(500), "Not Implemented");
}

#[test]
fn send_file_writes_head_and_contents() {
    let mut response = web::Response::new();
    response.send_file(200, "static/index.html", b"<p>hi</p>");
    assert_eq!(
        response.into_inner(),
        b"HTTP/1.1 200 OK\r\nContent-Type: text/html; charset=utf-8\r\nContent-Length: 9\r\n\r\n<p>hi</p>"
            .to_vec()
    );
    let mut other = web::Response::new();
    other.send_file(500, "logo.png", &[0u8, 255u8]);
    let mut expected =
        b"HTTP/1.1 501 Not Implemented\r\nContent-Type: image/png\r\nContent-Length: 2\r\n\r\n".to_vec();
    expected.extend_from_slice(&[0u8, 255u8]);
    assert_eq!(other.into_inner(), expected);
    assert_eq!(web::Response::new().mime_type("a.txt"), "text/plain; charset=utf-8");
}
