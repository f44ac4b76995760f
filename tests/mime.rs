use fxa_email_service::mime::{build_multipart_mime, Headers, MimeError};

fn split(text: String) -> Vec<String> {
    text.split("\r\n").map(|s| s.to_owned()).collect()
}

#[test]
fn build_mime_without_optional_data() {
    let message =
        build_multipart_mime("a@a.com", "b@b.com", &[], None, "subject", "body", None).unwrap();
    let message: Vec<String> = split(message.to_string());
    assert_eq!("From: a@a.com", &message[0]);
    assert_eq!("To: b@b.com", &message[1]);
    assert_eq!("Subject: subject", &message[2]);
    assert_eq!("MIME-Version: 1.0", &message[3]);
    assert_eq!("Content-Transfer-Encoding: quoted-printable", &message[10]);
    assert_eq!("Content-Type: text/plain; charset=utf8", &message[11]);
    assert_eq!("body", &message[13]);
}

#[test]
fn build_mime_with_cc_headers() {
    let message = build_multipart_mime(
        "a@a.com",
        "b@b.com",
        &["c@c.com", "d@d.com"],
        None,
        "subject",
        "body",
        None,
    )
    .unwrap();
    let message: Vec<String> = split(message.to_string());
    assert_eq!("From: a@a.com", &message[0]);
    assert_eq!("To: b@b.com", &message[1]);
    assert_eq!("Subject: subject", &message[2]);
    assert_eq!("MIME-Version: 1.0", &message[3]);
    assert_eq!("Cc: c@c.com, d@d.com", &message[4]);
    assert_eq!("Content-Transfer-Encoding: quoted-printable", &message[11]);
    assert_eq!("Content-Type: text/plain; charset=utf8", &message[12]);
    assert_eq!("body", &message[14]);
}

#[test]
fn build_mime_with_custom_headers() {
    let mut custom_headers = Headers::new();
    custom_headers.insert("x-foo".to_string(), "bar".to_string());
    let message = build_multipart_mime(
        "a@a.com",
        "b@b.com",
        &[],
        Some(&custom_headers),
        "subject",
        "body",
        None,
    )
    .unwrap();
    let message: Vec<String> = split(message.to_string());
    assert_eq!("From: a@a.com", &message[0]);
    assert_eq!("To: b@b.com", &message[1]);
    assert_eq!("Subject: subject", &message[2]);
    assert_eq!("MIME-Version: 1.0", &message[3]);
    assert_eq!("x-foo: bar", &message[4]);
    assert_eq!("Content-Transfer-Encoding: quoted-printable", &message[11]);
    assert_eq!("Content-Type: text/plain; charset=utf8", &message[12]);
    assert_eq!("body", &message[14]);
}

#[test]
fn build_mime_with_body_html() {
    let message = build_multipart_mime(
        "a@a.com",
        "b@b.com",
        &[],
        None,
        "subject",
        "body",
        Some("<p>body</p>"),
    )
    .unwrap();
    let message: Vec<String> = split(message.to_string());
    assert_eq!("From: a@a.com", &message[0]);
    assert_eq!("To: b@b.com", &message[1]);
    assert_eq!("Subject: subject", &message[2]);
    assert_eq!("MIME-Version: 1.0", &message[3]);
    assert_eq!("Content-Transfer-Encoding: quoted-printable", &message[10]);
    assert_eq!("Content-Type: text/plain; charset=utf8", &message[11]);
    assert_eq!("body", &message[13]);
    assert_eq!("Content-Transfer-Encoding: 8bit", &message[18]);
    assert_eq!("Content-Type: text/html; charset=utf8", &message[19]);
    assert_eq!("<p>body</p>", &message[21]);
}

#[test]
fn mime_with_everything_keeps_positions() {
    let mut headers = Headers::new();
    headers.insert("x-one".to_string(), "1".to_string());
    headers.insert("x-two".to_string(), "2".to_string());
    let doc = build_multipart_mime(
        "a@a.com",
        "b@b.com",
        &["c@c.com"],
        Some(&headers),
        "subject",
        "text",
        Some("<b>html</b>"),
    )
    .unwrap();
    let lines = split(doc.to_string());
    assert_eq!(lines.len(), doc.len());
    assert_eq!("Cc: c@c.com", &lines[4]);
    assert_eq!("x-one: 1", &lines[5]);
    assert_eq!("x-two: 2", &lines[6]);
    assert_eq!("Content-Type: multipart/alternative;", &lines[7]);
    assert_eq!("Content-Transfer-Encoding: quoted-printable", &lines[13]);
    assert_eq!("text", &lines[16]);
    assert_eq!("Content-Transfer-Encoding: 8bit", &lines[21]);
    assert_eq!("<b>html</b>", &lines[24]);
    assert_eq!(lines.len(), 27);
    assert!(lines[26].starts_with("--") && lines[26].ends_with("--"));
}

#[test]
fn mime_without_html_has_one_part() {
    let doc = build_multipart_mime("a@a.com", "b@b.com", &[], None, "s", "t", None).unwrap();
    let lines = split(doc.to_string());
    assert_eq!(lines.len(), 16);
    assert!(!lines.iter().any(|l| l.contains("text/html")));
    assert!(!lines.iter().any(|l| l.starts_with("Cc:")));
}

#[test]
fn mime_rejects_line_break_in_header() {
    let r = build_multipart_mime("a@a.com", "b@b.com", &[], None, "bad\r\nBcc: x", "t", None);
    assert!(matches!(r, Err(MimeError::LineBreakInHeader)));
    let r = build_multipart_mime("a@a.com", "b@b.com", &["c@c.com\n"], None, "s", "t", None);
    assert!(matches!(r, Err(MimeError::LineBreakInHeader)));
    let mut headers = Headers::new();
    headers.insert("x-foo".to_string(), "a\rb".to_string());
    let r = build_multipart_mime("a@a.com", "b@b.com", &[], Some(&headers), "s", "t", None);
    assert!(matches!(r, Err(MimeError::LineBreakInHeader)));
}

#[test]
fn mime_body_may_hold_line_breaks() {
    let doc = build_multipart_mime("a@a.com", "b@b.com", &[], None, "s", "one\r\ntwo", None)
        .unwrap();
    let lines = split(doc.to_string());
    assert_eq!("one", &lines[13]);
    assert_eq!("two", &lines[14]);
}

#[test]
fn headers_insert_replaces_in_place() {
    let mut headers = Headers::new();
    headers.insert("a".to_string(), "1".to_string());
    headers.insert("b".to_string(), "2".to_string());
    headers.insert("a".to_string(), "3".to_string());
    assert_eq!(headers.len(), 2);
    let (n, v) = headers.entry(0);
    assert_eq!((n.as_str(), v.as_str()), ("a", "3"));
    let (n, v) = headers.entry(1);
    assert_eq!((n.as_str(), v.as_str()), ("b", "2"));
}

#[test]
fn text_body_is_quoted_printable_encoded() {
    let doc = build_multipart_mime("a@a.com", "b@b.com", &[], None, "s", "a=b \u{20ac}", None)
        .unwrap();
    let lines = split(doc.to_string());
    assert_eq!("a=3Db =E2=82=AC", &lines[13]);
}

#[test]
fn assembled_document_holds_text_as_given() {
    let doc = fxa_email_service::mime::assemble_multipart_mime(
        "a@a.com",
        "b@b.com",
        &[],
        None,
        "s",
        "a=3Db",
        Some("<i>x</i>"),
    )
    .unwrap();
    assert_eq!(doc.line(13).as_str(), "a=3Db");
    assert_eq!(doc.line(21).as_str(), "<i>x</i>");
    assert_eq!(doc.len(), 24);
}
