use messauto::mail::{names_plain_text, plain_text_header_lowered, extract_plain_text_content, extract_plain_text_from_multipart, EmailError, EmailProcessor, MimeDocument, MimePart};
use messauto::watch::WatchEvent;

fn part(ct: Option<&str>, body: Option<&str>) -> MimePart {
    MimePart { content_type: ct.map(|s| s.to_string()), decoded_body: body.map(|s| s.to_string()) }
}

#[test]
fn multipart_plain_text_section_is_kept() {
    let content = "------=_Part_1\nContent-Type: text/plain; charset=utf-8\n\n  Your code is 123456  \n\nThanks\n------=_Part_2\nContent-Type: text/html\n\n<p>123456</p>\n";
    assert_eq!(extract_plain_text_from_multipart(content), Some("Your code is 123456 Thanks".to_string()));
}

#[test]
fn multipart_without_plain_text_gives_none() {
    let content = "------=_Part_1\nContent-Type: text/html\n\n<b>hi</b>\n";
    assert_eq!(extract_plain_text_from_multipart(content), None);
    assert_eq!(extract_plain_text_from_multipart(""), None);
    assert_eq!(extract_plain_text_from_multipart("no boundary at all\nContent-Type: text/plain\n\nbody"), None);
}

#[test]
fn multipart_header_match_ignores_letter_case() {
    let content = "------b\r\nCONTENT-TYPE: TEXT/PLAIN\r\n\r\ncode 42\r\n";
    assert_eq!(extract_plain_text_from_multipart(content), Some("code 42".to_string()));
}

#[test]
fn multipart_type_must_be_in_content_type_header() {
    let content = "------b\nX-Note: text/plain\n\ncode 42\n";
    assert_eq!(extract_plain_text_from_multipart(content), None);
}

#[test]
fn multipart_plain_text_ends_at_next_boundary() {
    let content = "------a\nContent-Type: text/plain\n\nfirst\n------b\nContent-Type: text/plain\n\nsecond\n";
    assert_eq!(extract_plain_text_from_multipart(content), Some("first second".to_string()));
}

#[test]
fn content_takes_first_plain_child() {
    let doc = MimeDocument {
        children: vec![
            part(Some("Content-Type: text/html"), Some("<p>1</p>")),
            part(Some("Content-Type: text/plain"), Some("   ")),
            part(Some("Content-Type: Text/Plain; charset=utf-8"), Some("  code 9876 \n")),
            part(Some("Content-Type: text/plain"), Some("later")),
        ],
        decoded_body: None,
        body: String::new(),
    };
    assert_eq!(extract_plain_text_content(&doc), Some("code 9876".to_string()));
}

#[test]
fn content_with_children_but_no_plain_text_gives_none() {
    let doc = MimeDocument {
        children: vec![part(None, Some("x")), part(Some("Content-Type: text/plain"), None)],
        decoded_body: Some("------a\nContent-Type: text/plain\n\nhidden\n".to_string()),
        body: String::new(),
    };
    assert_eq!(extract_plain_text_content(&doc), None);
}

#[test]
fn content_without_children_reads_decoded_body_then_raw_body() {
    let decoded = MimeDocument {
        children: vec![],
        decoded_body: Some("------a\nContent-Type: text/plain\n\ndecoded 1\n".to_string()),
        body: "------a\nContent-Type: text/plain\n\nraw 2\n".to_string(),
    };
    assert_eq!(extract_plain_text_content(&decoded), Some("decoded 1".to_string()));
    let raw = MimeDocument { decoded_body: None, ..decoded };
    assert_eq!(extract_plain_text_content(&raw), Some("raw 2".to_string()));
}

#[test]
fn message_bytes_must_be_utf8() {
    let p = EmailProcessor::new();
    assert_eq!(p.message_text("héllo".as_bytes().to_vec()), Ok("héllo".to_string()));
    let expected = String::from_utf8(vec![0xff, 0xfe]).unwrap_err().to_string();
    assert_eq!(p.message_text(vec![0xff, 0xfe]), Err(EmailError::InvalidUtf8(expected.clone())));
    assert_eq!(p.message_text(vec![0xff, 0xfe]).unwrap_err().message(), expected);
    assert_eq!(expected, "invalid utf-8 sequence of 1 bytes from index 0");
}

#[test]
fn read_emlx_reports_each_error() {
    let p = EmailProcessor::new();
    let refused = p.read_emlx(Err("no headers".to_string()));
    assert_eq!(refused, Err(EmailError::InvalidMime("no headers".to_string())));
    assert_eq!(refused.unwrap_err().message(), "no headers");
    let empty = MimeDocument { children: vec![], decoded_body: Some("plain".to_string()), body: String::new() };
    let none = p.read_emlx(Ok(empty));
    assert_eq!(none, Err(EmailError::NoPlainText));
    assert_eq!(none.unwrap_err().message(), "No plain text content found in email");
    let good = MimeDocument {
        children: vec![part(Some("Content-Type: text/plain"), Some("code 1"))],
        decoded_body: None,
        body: String::new(),
    };
    assert_eq!(p.read_emlx(Ok(good)), Ok("code 1".to_string()));
}

#[test]
fn only_new_inbox_mail_is_read() {
    let p = EmailProcessor::new();
    assert_eq!(
        p.mail_to_read(WatchEvent::CreateFile, "/Users/a/Library/Mail/V10/x/INBOX.mbox/1.emlx.tmp"),
        Some("/Users/a/Library/Mail/V10/x/INBOX.mbox/1.emlx".to_string())
    );
    assert_eq!(p.mail_to_read(WatchEvent::CreateFile, "/m/a.tmp.tmp/INBOX.mbox/b.tmp"), Some("/m/a/INBOX.mbox/b".to_string()));
    assert_eq!(p.mail_to_read(WatchEvent::CreateFile, "/m/Sent.mbox/1.emlx"), None);
    assert_eq!(p.mail_to_read(WatchEvent::ModifyMetadataAny, "/m/INBOX.mbox/1.emlx"), None);
    assert_eq!(p.get_file_pattern(), ".emlx");
    assert_eq!(p.watch_subpath(), "Library/Mail/V10");
    assert!(p.get_recursive_mode());
}

#[test]
fn lowered_header_checks() {
    assert!(plain_text_header_lowered("content-type: text/plain; charset=utf-8"));
    assert!(!plain_text_header_lowered("x-content-type: text/plain"));
    assert!(!plain_text_header_lowered("content-type: text/html"));
    assert!(names_plain_text("content-type: text/plain"));
    assert!(!names_plain_text("content-type: text/html"));
}

#[test]
fn multipart_text_of_joined_bodies() {
    let a = "------a\nContent-Type: text/plain\n\nfirst\r";
    let b = "------b\nContent-Type: text/plain\n\nsecond\n";
    let joined = format!("{}\n{}", a, b);
    assert_eq!(extract_plain_text_from_multipart(&joined), Some("first second".to_string()));
    assert_eq!(extract_plain_text_from_multipart(&format!("{}\n{}", "", b)), Some("second".to_string()));
}
