//! Mail.app messages: from the bytes of an `.emlx` file to the plain-text
//! body in which a verification code is looked for.
use vstd::prelude::*;
use crate::text::{
    chars_of, contains, contains_in, join, line_ranges, lines, lowercase, starts_with, starts_with_at,
    string_of_range, to_lowercase, join_ranges, trim, trim_range, remove_all, remove_all_str,
    lemma_lines_join, lemma_terminated_lines, lemma_trim_strip_cr, strip_cr, terminated_lines,
};
use crate::watch::{path_matches, WatchEvent};

verus! {

/// The state of the line scan over a multipart body.
pub struct MultipartScan {
    /// Inside the body of a part whose headers declared `text/plain`.
    pub in_plain_text: bool,
    /// Between a boundary line and the blank line that ends the part's headers.
    pub reading_headers: bool,
    /// The headers read so far declared `text/plain`.
    pub found_plain_text_type: bool,
    /// The trimmed, non-blank `text/plain` lines kept so far.
    pub kept: Seq<Seq<char>>,
}

pub open spec fn scan_start() -> MultipartScan {
    MultipartScan { in_plain_text: false, reading_headers: false, found_plain_text_type: false, kept: seq![] }
}

/// A boundary line: one that starts with six dashes.
pub open spec fn is_boundary_line(line: Seq<char>) -> bool {
    starts_with(line, "------"@)
}

/// A lowercased line that is a `content-type:` header naming `text/plain`.
pub open spec fn lowered_plain_text_header(lower: Seq<char>) -> bool {
    starts_with(lower, "content-type:"@) && contains(lower, "text/plain"@)
}

/// A `Content-Type` header line naming `text/plain`, in any letter case.
pub open spec fn is_plain_text_header(line: Seq<char>) -> bool {
    lowered_plain_text_header(lowercase(line))
}

/// Whether a lowercased header line is a `content-type:` header naming
/// `text/plain`.
pub fn plain_text_header_lowered(lower: &str) -> (b: bool)
    ensures
        b == lowered_plain_text_header(lower@),
{
    let lv = chars_of(lower);
    let prefix = chars_of("content-type:");
    let kind = chars_of("text/plain");
    assert(lv@.subrange(0, lv.len() as int) =~= lv@);
    starts_with_at(&lv, 0, lv.len(), &prefix) && contains_in(&lv, 0, lv.len(), &kind)
}

/// Whether a lowercased `Content-Type` header names `text/plain`.
pub fn names_plain_text(lower: &str) -> (b: bool)
    ensures
        b == contains(lower@, "text/plain"@),
{
    let lv = chars_of(lower);
    let kind = chars_of("text/plain");
    assert(lv@.subrange(0, lv.len() as int) =~= lv@);
    contains_in(&lv, 0, lv.len(), &kind)
}

/// One step of the scan.
pub open spec fn scan_line(st: MultipartScan, line: Seq<char>) -> MultipartScan {
    if is_boundary_line(line) {
        MultipartScan { in_plain_text: false, reading_headers: true, found_plain_text_type: false, kept: st.kept }
    } else if st.reading_headers {
        if trim(line).len() == 0 {
            MultipartScan { reading_headers: false, in_plain_text: st.found_plain_text_type, ..st }
        } else if is_plain_text_header(line) {
            MultipartScan { found_plain_text_type: true, ..st }
        } else {
            st
        }
    } else if st.in_plain_text && trim(line).len() > 0 {
        MultipartScan { kept: st.kept.push(trim(line)), ..st }
    } else {
        st
    }
}

/// The scan over a sequence of lines, from the start state.
pub open spec fn scan_lines(ls: Seq<Seq<char>>) -> MultipartScan
    decreases ls.len(),
{
    if ls.len() == 0 {
        scan_start()
    } else {
        scan_line(scan_lines(ls.drop_last()), ls.last())
    }
}

/// The plain text of a multipart body split by hand: the trimmed non-blank
/// lines of its `text/plain` parts joined with single spaces, or `None`
/// where there are none.
pub open spec fn plain_text_from_multipart(content: Seq<char>) -> Option<Seq<char>> {
    let kept = scan_lines(lines(content)).kept;
    if kept.len() == 0 {
        None
    } else {
        Some(join(kept, " "@))
    }
}

/// Whether the line `v[lo..hi]` is a `Content-Type` header naming `text/plain`.
fn plain_text_header_at(v: &Vec<char>, lo: usize, hi: usize) -> (b: bool)
    requires
        lo <= hi <= v.len(),
    ensures
        b == is_plain_text_header(v@.subrange(lo as int, hi as int)),
{
    let line = string_of_range(v, lo, hi);
    let lower = to_lowercase(line.as_str());
    plain_text_header_lowered(lower.as_str())
}

/// Reads the `text/plain` parts out of a multipart body by its lines: a
/// line starting with six dashes opens a part, its header lines run to the
/// first blank line, and the body lines of the parts whose `Content-Type`
/// names `text/plain` are trimmed, the blank ones dropped, and the rest
/// joined with single spaces.
pub fn extract_plain_text_from_multipart(content: &str) -> (r: Option<String>)
    ensures
        r matches Some(t) ==> plain_text_from_multipart(content@) == Some(t@),
        r is None ==> plain_text_from_multipart(content@) is None,
{
    let v = chars_of(content);
    let ls = line_ranges(&v);
    let dashes = chars_of("------");
    let ghost all = lines(v@);
    let mut in_plain_text = false;
    let mut reading_headers = false;
    let mut found_plain_text_type = false;
    let mut kept: Vec<(usize, usize)> = Vec::new();
    let mut k: usize = 0;
    while k < ls.len()
        invariant
            k <= ls.len(),
            all == lines(v@),
            ls.len() == all.len(),
            dashes@ == "------"@,
            forall|j: int|
                #![trigger ls@[j]]
                0 <= j < ls.len() ==> ls@[j].0 <= ls@[j].1 <= v.len() && v@.subrange(
                    ls@[j].0 as int,
                    ls@[j].1 as int,
                ) == all[j],
            forall|j: int| #![trigger kept@[j]] 0 <= j < kept.len() ==> kept@[j].0 <= kept@[j].1 <= v.len(),
            ({
                let st = scan_lines(all.take(k as int));
                &&& st.in_plain_text == in_plain_text
                &&& st.reading_headers == reading_headers
                &&& st.found_plain_text_type == found_plain_text_type
                &&& st.kept == Seq::new(
                    kept.len() as nat,
                    |j: int| v@.subrange(kept@[j].0 as int, kept@[j].1 as int),
                )
            }),
        decreases ls.len() - k,
    {
        let (lo, hi) = ls[k];
        let ghost line = all[k as int];
        let ghost before = scan_lines(all.take(k as int));
        let ghost old_kept = kept@;
        proof {
            assert(all.take(k + 1).drop_last() =~= all.take(k as int));
            assert(all.take(k + 1).last() == line);
        }
        if starts_with_at(&v, lo, hi, &dashes) {
            in_plain_text = false;
            reading_headers = true;
            found_plain_text_type = false;
        } else if reading_headers {
            let (a, b) = trim_range(&v, lo, hi);
            if a == b {
                reading_headers = false;
                in_plain_text = found_plain_text_type;
            } else if plain_text_header_at(&v, lo, hi) {
                found_plain_text_type = true;
            }
        } else if in_plain_text {
            let (a, b) = trim_range(&v, lo, hi);
            if a < b {
                kept.push((a, b));
                proof {
                    let after = Seq::new(kept.len() as nat, |j: int| v@.subrange(kept@[j].0 as int, kept@[j].1 as int));
                    assert(after =~= before.kept.push(trim(line))) by {
                        assert forall|j: int| 0 <= j < after.len() implies after[j] == before.kept.push(trim(line))[j] by {
                            if j < old_kept.len() {
                                assert(kept@[j] == old_kept[j]);
                            }
                        }
                    }
                }
            }
        }
        proof {
            let after = Seq::new(kept.len() as nat, |j: int| v@.subrange(kept@[j].0 as int, kept@[j].1 as int));
            if kept.len() == old_kept.len() {
                assert(after =~= before.kept) by {
                    assert forall|j: int| 0 <= j < after.len() implies after[j] == before.kept[j] by {
                        assert(kept@[j] == old_kept[j]);
                    }
                }
            }
        }
        k += 1;
    }
    assert(all.take(ls.len() as int) =~= all);
    if kept.len() == 0 {
        None
    } else {
        Some(join_ranges(&v, &kept, " "))
    }
}

/// One part of a parsed MIME message, as the plain-text search reads it.
pub struct MimePart {
    /// The part's `Content-Type` header as it prints (`name: value`), if it has one.
    pub content_type: Option<String>,
    /// The part's body decoded by its transfer encoding and charset, if that succeeds.
    pub decoded_body: Option<String>,
}

/// A parsed MIME message, as the plain-text search reads it.
pub struct MimeDocument {
    /// The sub-parts found under a multipart `Content-Type`.
    pub children: Vec<MimePart>,
    /// The message body decoded, if that succeeds.
    pub decoded_body: Option<String>,
    /// The message body as it stands in the message, undecoded.
    pub body: String,
}

pub struct MimePartView {
    pub content_type: Option<Seq<char>>,
    pub decoded_body: Option<Seq<char>>,
}

pub struct MimeDocumentView {
    pub children: Seq<MimePartView>,
    pub decoded_body: Option<Seq<char>>,
    pub body: Seq<char>,
}

pub open spec fn opt_view(o: Option<String>) -> Option<Seq<char>> {
    match o {
        Some(s) => Some(s@),
        None => None,
    }
}

impl View for MimePart {
    type V = MimePartView;

    open spec fn view(&self) -> MimePartView {
        MimePartView { content_type: opt_view(self.content_type), decoded_body: opt_view(self.decoded_body) }
    }
}

impl View for MimeDocument {
    type V = MimeDocumentView;

    open spec fn view(&self) -> MimeDocumentView {
        MimeDocumentView {
            children: self.children@.map_values(|c: MimePart| c@),
            decoded_body: opt_view(self.decoded_body),
            body: self.body@,
        }
    }
}

/// The text a part offers: its trimmed decoded body, where its
/// `Content-Type` names `text/plain` in any letter case, it decodes, and
/// the trimmed body is not empty.
pub open spec fn part_plain_text(p: MimePartView) -> Option<Seq<char>> {
    match (p.content_type, p.decoded_body) {
        (Some(ct), Some(body)) => if contains(lowercase(ct), "text/plain"@) && trim(body).len() > 0 {
            Some(trim(body))
        } else {
            None
        },
        _ => None,
    }
}

/// The text of the first part, in order, that offers one.
pub open spec fn first_plain_part(parts: Seq<MimePartView>) -> Option<Seq<char>>
    decreases parts.len(),
{
    if parts.len() == 0 {
        None
    } else if part_plain_text(parts[0]) is Some {
        part_plain_text(parts[0])
    } else {
        first_plain_part(parts.drop_first())
    }
}

/// The plain text of a message: from its first `text/plain` part where it
/// has parts (and none where no part offers text); otherwise read by lines
/// from its decoded body, or from its raw body where decoding fails.
pub open spec fn plain_text_content(doc: MimeDocumentView) -> Option<Seq<char>> {
    if doc.children.len() > 0 {
        first_plain_part(doc.children)
    } else {
        plain_text_from_multipart(
            match doc.decoded_body {
                Some(d) => d,
                None => doc.body,
            },
        )
    }
}

/// The plain text that `part` offers (see `part_plain_text`).
fn plain_text_of_part(part: &MimePart) -> (r: Option<String>)
    ensures
        opt_view(r) == part_plain_text(part@),
{
    match (&part.content_type, &part.decoded_body) {
        (Some(ct), Some(body)) => {
            let lower = to_lowercase(ct.as_str());
            if names_plain_text(lower.as_str()) {
                let bv = chars_of(body.as_str());
                assert(bv@.subrange(0, bv.len() as int) =~= bv@);
                let (a, b) = trim_range(&bv, 0, bv.len());
                if a < b {
                    return Some(string_of_range(&bv, a, b));
                }
            }
            None
        },
        _ => None,
    }
}

/// Finds the plain text of a parsed message: the first part whose
/// `Content-Type` names `text/plain` and whose decoded, trimmed body is not
/// empty; with no parts, the `text/plain` sections read by lines out of the
/// decoded body (or the raw body, where decoding failed).
pub fn extract_plain_text_content(mime_message: &MimeDocument) -> (r: Option<String>)
    ensures
        opt_view(r) == plain_text_content(mime_message@),
{
    let ghost parts = mime_message@.children;
    if mime_message.children.len() > 0 {
        assert(parts.skip(0) =~= parts);
        let mut i: usize = 0;
        while i < mime_message.children.len()
            invariant
                i <= mime_message.children.len(),
                parts == mime_message@.children,
                parts.len() == mime_message.children.len(),
                first_plain_part(parts) == first_plain_part(parts.skip(i as int)),
            decreases mime_message.children.len() - i,
        {
            let found = plain_text_of_part(&mime_message.children[i]);
            proof {
                let rest = parts.skip(i as int);
                assert(rest[0] == mime_message.children@[i as int]@);
                assert(rest.drop_first() =~= parts.skip(i + 1));
            }
            if found.is_some() {
                return found;
            }
            i += 1;
        }
        assert(parts.skip(i as int).len() == 0);
        return None;
    }
    let source = match &mime_message.decoded_body {
        Some(d) => d.as_str(),
        None => mime_message.body.as_str(),
    };
    match extract_plain_text_from_multipart(source) {
        Some(t) => Some(t),
        None => None,
    }
}

/// The text that `String::from_utf8`'s error displays for the given bytes
/// (where the first invalid sequence starts, and how long it is).
pub uninterp spec fn utf8_error_text(bytes: Seq<u8>) -> Seq<char>;

/// `String::from_utf8`: the bytes as text where they are valid UTF-8, and
/// otherwise the text of the `FromUtf8Error` (which depends on the bytes
/// alone).
#[verifier::external_body]
fn utf8_text(bytes: Vec<u8>) -> (r: Result<String, String>)
    ensures
        r is Ok <==> vstd::utf8::valid_utf8(bytes@),
        r matches Ok(t) ==> t@ == vstd::utf8::decode_utf8(bytes@),
        r matches Err(e) ==> e@ == utf8_error_text(bytes@),
{
    match String::from_utf8(bytes) {
        Ok(t) => Ok(t),
        Err(e) => Err(e.to_string()),
    }
}

/// Why no plain text came out of a mail message; the first two carry the
/// text of the error that stopped the reading.
#[derive(Debug, Clone, PartialEq, Eq)]
pub enum EmailError {
    /// The message bytes are not UTF-8.
    InvalidUtf8(String),
    /// The message is not a MIME message.
    InvalidMime(String),
    /// The message has no non-blank `text/plain` content.
    NoPlainText,
}

/// An `EmailError` with its texts as sequences.
pub enum EmailErrorView {
    InvalidUtf8(Seq<char>),
    InvalidMime(Seq<char>),
    NoPlainText,
}

impl View for EmailError {
    type V = EmailErrorView;

    open spec fn view(&self) -> EmailErrorView {
        match self {
            EmailError::InvalidUtf8(t) => EmailErrorView::InvalidUtf8(t@),
            EmailError::InvalidMime(t) => EmailErrorView::InvalidMime(t@),
            EmailError::NoPlainText => EmailErrorView::NoPlainText,
        }
    }
}

/// The text of each error: the carried text, and for a message without
/// plain text "No plain text content found in email".
pub open spec fn email_error_text(e: EmailErrorView) -> Seq<char> {
    match e {
        EmailErrorView::InvalidUtf8(t) => t,
        EmailErrorView::InvalidMime(t) => t,
        EmailErrorView::NoPlainText => "No plain text content found in email"@,
    }
}

impl EmailError {
    /// The text of the error (see `email_error_text`).
    pub fn message(&self) -> (m: String)
        ensures
            m@ == email_error_text(self@),
    {
        match self {
            EmailError::InvalidUtf8(t) => t.clone(),
            EmailError::InvalidMime(t) => t.clone(),
            EmailError::NoPlainText => String::from_str("No plain text content found in email"),
        }
    }
}

/// The text of the message bytes of an `.emlx` file, or why there is none.
pub open spec fn message_text_of(message: Seq<u8>) -> Result<Seq<char>, EmailErrorView> {
    if vstd::utf8::valid_utf8(message) {
        Ok(vstd::utf8::decode_utf8(message))
    } else {
        Err(EmailErrorView::InvalidUtf8(utf8_error_text(message)))
    }
}

/// The plain text of a parsed message (or, where it did not parse as MIME,
/// the parser's error text), or why there is none.
pub open spec fn plain_text_result(parsed: Result<MimeDocumentView, Seq<char>>) -> Result<Seq<char>, EmailErrorView> {
    match parsed {
        Err(t) => Err(EmailErrorView::InvalidMime(t)),
        Ok(doc) => match plain_text_content(doc) {
            None => Err(EmailErrorView::NoPlainText),
            Some(t) => Ok(t),
        },
    }
}

/// Watches Mail.app's store for new messages and reads their plain text.
#[derive(Clone, Copy, Debug)]
pub struct EmailProcessor;

impl EmailProcessor {
    pub fn new() -> (p: Self)
        ensures
            p == EmailProcessor,
    {
        EmailProcessor
    }

    /// The directory under the home directory that is watched.
    pub fn watch_subpath(&self) -> (s: &'static str)
        ensures
            s@ == "Library/Mail/V10"@,
    {
        "Library/Mail/V10"
    }

    /// What a watched path must contain to be looked at.
    pub fn get_file_pattern(&self) -> (s: &'static str)
        ensures
            s@ == ".emlx"@,
    {
        ".emlx"
    }

    /// The watch covers subdirectories.
    pub fn get_recursive_mode(&self) -> (b: bool)
        ensures
            b,
    {
        true
    }

    /// The file to read for an event: only a newly created file in an inbox
    /// (`INBOX.mbox` in its path) is read, at its path with every `.tmp`
    /// taken out (Mail.app writes through a temporary name).
    pub fn mail_to_read(&self, event: WatchEvent, path: &str) -> (r: Option<String>)
        ensures
            r is Some <==> (event == WatchEvent::CreateFile && contains(path@, "INBOX.mbox"@)),
            r matches Some(p) ==> p@ == remove_all(path@, ".tmp"@),
    {
        match event {
            WatchEvent::CreateFile => {},
            _ => return None,
        }
        if !path_matches(path, "INBOX.mbox") {
            return None;
        }
        proof {
            reveal_strlit(".tmp");
        }
        Some(remove_all_str(path, ".tmp"))
    }

    /// The text of the message bytes that an `.emlx` file holds.
    pub fn message_text(&self, message: Vec<u8>) -> (r: Result<String, EmailError>)
        ensures
            r matches Ok(t) ==> message_text_of(message@) == Ok::<Seq<char>, EmailErrorView>(t@),
            r matches Err(e) ==> message_text_of(message@) == Err::<Seq<char>, EmailErrorView>(e@),
    {
        match utf8_text(message) {
            Ok(t) => Ok(t),
            Err(e) => Err(EmailError::InvalidUtf8(e)),
        }
    }

    /// The plain text of a message as parsed into its MIME parts (or the
    /// parser's error text where it did not parse).
    pub fn read_emlx(&self, parsed: Result<MimeDocument, String>) -> (r: Result<String, EmailError>)
        ensures
            r matches Ok(t) ==> plain_text_result(match parsed {
                Ok(d) => Ok(d@),
                Err(e) => Err(e@),
            }) == Ok::<Seq<char>, EmailErrorView>(t@),
            r matches Err(e) ==> plain_text_result(match parsed {
                Ok(d) => Ok(d@),
                Err(e) => Err(e@),
            }) == Err::<Seq<char>, EmailErrorView>(e@),
    {
        match parsed {
            Err(e) => Err(EmailError::InvalidMime(e)),
            Ok(doc) => match extract_plain_text_content(&doc) {
                Some(t) => Ok(t),
                None => Err(EmailError::NoPlainText),
            },
        }
    }
}

proof fn lemma_scan_keeps_nonblank(ls: Seq<Seq<char>>)
    ensures
        forall|i: int| 0 <= i < scan_lines(ls).kept.len() ==> #[trigger] scan_lines(ls).kept[i].len() > 0,
    decreases ls.len(),
{
    if ls.len() > 0 {
        lemma_scan_keeps_nonblank(ls.drop_last());
        let before = scan_lines(ls.drop_last());
        let after = scan_lines(ls);
        assert(after == scan_line(before, ls.last()));
        assert forall|i: int| 0 <= i < after.kept.len() implies #[trigger] after.kept[i].len() > 0 by {
            if i < before.kept.len() {
                assert(before.kept[i].len() > 0);
                if after.kept.len() > before.kept.len() {
                    assert(after.kept == before.kept.push(trim(ls.last())));
                    assert(after.kept[i] == before.kept[i]);
                } else {
                    assert(after.kept == before.kept);
                }
            } else {
                assert(after.kept == before.kept.push(trim(ls.last())));
            }
        }
    }
}

proof fn lemma_join_keeps_first(parts: Seq<Seq<char>>, sep: Seq<char>)
    requires
        parts.len() > 0,
    ensures
        join(parts, sep).len() >= parts[0].len(),
    decreases parts.len(),
{
    if parts.len() > 1 {
        lemma_join_keeps_first(parts.drop_last(), sep);
    }
}

/// The text read out of a multipart body is never empty: only non-blank
/// lines are kept, and it is given only where one was.
pub proof fn lemma_multipart_text_not_empty(content: Seq<char>)
    ensures
        plain_text_from_multipart(content) matches Some(t) ==> t.len() > 0,
{
    let kept = scan_lines(lines(content)).kept;
    lemma_scan_keeps_nonblank(lines(content));
    if kept.len() > 0 {
        lemma_join_keeps_first(kept, " "@);
        assert(kept[0].len() > 0);
    }
}

/// The scan over a sequence of lines from the state `st`.
pub open spec fn scan_from(st: MultipartScan, ls: Seq<Seq<char>>) -> MultipartScan
    decreases ls.len(),
{
    if ls.len() == 0 {
        st
    } else {
        scan_line(scan_from(st, ls.drop_last()), ls.last())
    }
}

proof fn lemma_scan_lines_from_start(ls: Seq<Seq<char>>)
    ensures
        scan_lines(ls) == scan_from(scan_start(), ls),
    decreases ls.len(),
{
    if ls.len() > 0 {
        lemma_scan_lines_from_start(ls.drop_last());
    }
}

proof fn lemma_scan_from_concat(st: MultipartScan, p: Seq<Seq<char>>, q: Seq<Seq<char>>)
    ensures
        scan_from(st, p + q) == scan_from(scan_from(st, p), q),
    decreases q.len(),
{
    if q.len() == 0 {
        assert(p + q =~= p);
    } else {
        lemma_scan_from_concat(st, p, q.drop_last());
        assert((p + q).drop_last() =~= p + q.drop_last());
        assert((p + q).last() == q.last());
    }
}

/// Two scan states alike but for `kept`, the first holding `k` before what
/// the second holds.
pub open spec fn shifted(x: MultipartScan, y: MultipartScan, k: Seq<Seq<char>>) -> bool {
    &&& x.in_plain_text == y.in_plain_text
    &&& x.reading_headers == y.reading_headers
    &&& x.found_plain_text_type == y.found_plain_text_type
    &&& x.kept == k + y.kept
}

proof fn lemma_scan_line_shifted(x: MultipartScan, y: MultipartScan, k: Seq<Seq<char>>, l: Seq<char>)
    requires
        shifted(x, y, k),
    ensures
        shifted(scan_line(x, l), scan_line(y, l), k),
{
    assert(k + y.kept.push(trim(l)) =~= (k + y.kept).push(trim(l)));
}

/// From a boundary line on, the scan forgets everything but what it kept.
proof fn lemma_scan_after_boundary(st: MultipartScan, ls: Seq<Seq<char>>)
    requires
        ls.len() > 0,
        is_boundary_line(ls[0]),
    ensures
        shifted(scan_from(st, ls), scan_from(scan_start(), ls), st.kept),
    decreases ls.len(),
{
    if ls.len() == 1 {
        assert(ls.drop_last() =~= Seq::<Seq<char>>::empty());
        assert(st.kept + Seq::<Seq<char>>::empty() =~= st.kept);
    } else {
        assert(ls.drop_last()[0] == ls[0]);
        lemma_scan_after_boundary(st, ls.drop_last());
        lemma_scan_line_shifted(
            scan_from(st, ls.drop_last()),
            scan_from(scan_start(), ls.drop_last()),
            st.kept,
            ls.last(),
        );
    }
}

proof fn lemma_boundary_strip_cr(z: Seq<char>)
    ensures
        is_boundary_line(strip_cr(z)) == is_boundary_line(z),
{
    reveal_strlit("------");
    let d: Seq<char> = "------"@;
    if z.len() > 0 && z.last() == '\r' {
        let w = z.drop_last();
        if z.len() >= 7 {
            assert(w.subrange(0, 6) =~= z.subrange(0, 6));
        } else if z.len() == 6 {
            assert(z.subrange(0, 6)[5] == '\r');
            assert(z.subrange(0, 6) != d);
        }
    }
}

/// The text kept by the scan is the same whether or not a line break
/// follows the input.
proof fn lemma_kept_terminated(a: Seq<char>)
    ensures
        scan_from(scan_start(), terminated_lines(a)).kept == scan_lines(lines(a)).kept,
{
    lemma_terminated_lines(a);
    lemma_scan_lines_from_start(lines(a));
    let t = terminated_lines(a);
    let l = lines(a);
    let empty: Seq<char> = Seq::empty();
    assert(trim(empty) =~= empty);
    reveal_strlit("------");
    assert(!is_boundary_line(empty));
    if a.len() == 0 {
        assert(t.drop_last() =~= Seq::<Seq<char>>::empty());
        assert(t.last() == empty);
    } else if a.last() == '\n' {
        assert(t.drop_last() =~= l);
        assert(t.last() == empty);
    } else {
        let z = l.last();
        assert(t.drop_last() =~= l.drop_last());
        assert(t.last() == strip_cr(z));
        lemma_boundary_strip_cr(z);
        lemma_trim_strip_cr(z);
    }
}

proof fn lemma_join_concat(p: Seq<Seq<char>>, q: Seq<Seq<char>>, sep: Seq<char>)
    requires
        p.len() > 0,
        q.len() > 0,
    ensures
        join(p + q, sep) == join(p, sep) + sep + join(q, sep),
    decreases q.len(),
{
    let pq = p + q;
    assert(pq.last() == q.last());
    if q.len() == 1 {
        assert(pq.drop_last() =~= p);
    } else {
        assert(pq.drop_last() =~= p + q.drop_last());
        lemma_join_concat(p, q.drop_last(), sep);
        assert(join(pq, sep) =~= join(p, sep) + sep + join(q, sep));
    }
}

/// Two texts joined with a single space; either where the other is absent.
pub open spec fn join_texts(x: Option<Seq<char>>, y: Option<Seq<char>>) -> Option<Seq<char>> {
    match (x, y) {
        (None, y) => y,
        (x, None) => x,
        (Some(p), Some(q)) => Some(p + " "@ + q),
    }
}

/// A multipart body followed, after a line break, by more parts (text
/// whose first line is a boundary) gives the text of the first part and
/// then that of the rest, joined with a space.
pub proof fn lemma_multipart_join(a: Seq<char>, b: Seq<char>)
    requires
        lines(b).len() > 0,
        is_boundary_line(lines(b)[0]),
    ensures
        plain_text_from_multipart(a + seq!['\n'] + b) == join_texts(
            plain_text_from_multipart(a),
            plain_text_from_multipart(b),
        ),
{
    let t = terminated_lines(a);
    let lb = lines(b);
    lemma_lines_join(a, b);
    lemma_scan_lines_from_start(t + lb);
    lemma_scan_lines_from_start(lb);
    lemma_scan_from_concat(scan_start(), t, lb);
    lemma_scan_after_boundary(scan_from(scan_start(), t), lb);
    lemma_kept_terminated(a);
    let ka = scan_lines(lines(a)).kept;
    let kb = scan_lines(lb).kept;
    let kall = scan_lines(lines(a + seq!['\n'] + b)).kept;
    assert(kall == ka + kb);
    if ka.len() == 0 {
        assert(kall =~= kb);
    } else if kb.len() == 0 {
        assert(kall =~= ka);
    } else {
        lemma_join_concat(ka, kb, " "@);
    }
}

/// The lines of `ls` that are not blank, trimmed, in order.
pub open spec fn trimmed_nonblank(ls: Seq<Seq<char>>) -> Seq<Seq<char>>
    decreases ls.len(),
{
    if ls.len() == 0 {
        seq![]
    } else if trim(ls.last()).len() > 0 {
        trimmed_nonblank(ls.drop_last()).push(trim(ls.last()))
    } else {
        trimmed_nonblank(ls.drop_last())
    }
}

proof fn lemma_scan_step(ls: Seq<Seq<char>>, k: int)
    requires
        0 <= k < ls.len(),
    ensures
        scan_lines(ls.take(k + 1)) == scan_line(scan_lines(ls.take(k)), ls[k]),
{
    assert(ls.take(k + 1).drop_last() =~= ls.take(k));
}

proof fn lemma_scan_headers(ls: Seq<Seq<char>>, start: int, hs: Seq<Seq<char>>, kept: Seq<Seq<char>>, k: int)
    requires
        0 <= start,
        start + hs.len() <= ls.len(),
        forall|j: int| 0 <= j < hs.len() ==> ls[start + j] == #[trigger] hs[j],
        forall|j: int| 0 <= j < hs.len() ==> !is_boundary_line(#[trigger] hs[j]) && trim(hs[j]).len() > 0,
        scan_lines(ls.take(start)) == (MultipartScan {
            in_plain_text: false,
            reading_headers: true,
            found_plain_text_type: false,
            kept,
        }),
        0 <= k <= hs.len(),
    ensures
        scan_lines(ls.take(start + k)) == (MultipartScan {
            in_plain_text: false,
            reading_headers: true,
            found_plain_text_type: exists|j: int| 0 <= j < k && is_plain_text_header(#[trigger] hs[j]),
            kept,
        }),
    decreases k,
{
    if k > 0 {
        lemma_scan_headers(ls, start, hs, kept, k - 1);
        lemma_scan_step(ls, start + k - 1);
        assert(ls[start + k - 1] == hs[k - 1]);
        if is_plain_text_header(hs[k - 1]) {
            assert(exists|j: int| 0 <= j < k && is_plain_text_header(#[trigger] hs[j]));
        } else {
            assert((exists|j: int| 0 <= j < k && is_plain_text_header(#[trigger] hs[j])) == (exists|j: int|
                0 <= j < k - 1 && is_plain_text_header(#[trigger] hs[j])));
        }
    }
}

proof fn lemma_scan_body(ls: Seq<Seq<char>>, start: int, body: Seq<Seq<char>>, kept: Seq<Seq<char>>, k: int)
    requires
        0 <= start,
        start + body.len() <= ls.len(),
        forall|j: int| 0 <= j < body.len() ==> ls[start + j] == #[trigger] body[j],
        forall|j: int| 0 <= j < body.len() ==> !is_boundary_line(#[trigger] body[j]),
        scan_lines(ls.take(start)) == (MultipartScan {
            in_plain_text: true,
            reading_headers: false,
            found_plain_text_type: true,
            kept,
        }),
        0 <= k <= body.len(),
    ensures
        scan_lines(ls.take(start + k)) == (MultipartScan {
            in_plain_text: true,
            reading_headers: false,
            found_plain_text_type: true,
            kept: kept + trimmed_nonblank(body.take(k)),
        }),
    decreases k,
{
    if k == 0 {
        assert(kept + trimmed_nonblank(body.take(0)) =~= kept);
    } else {
        lemma_scan_body(ls, start, body, kept, k - 1);
        lemma_scan_step(ls, start + k - 1);
        assert(ls[start + k - 1] == body[k - 1]);
        assert(body.take(k).drop_last() =~= body.take(k - 1));
        assert(body.take(k).last() == body[k - 1]);
        if trim(body[k - 1]).len() > 0 {
            assert(kept + trimmed_nonblank(body.take(k)) =~= (kept + trimmed_nonblank(body.take(k - 1))).push(
                trim(body[k - 1]),
            ));
        }
    }
}

/// A part whose header lines name `text/plain` in any one of them keeps
/// its body: where the lines of `content` are some lines `pre`, a boundary
/// line, header lines (none blank, none a boundary) of which at least one
/// is a `Content-Type` header naming `text/plain`, whatever the others say,
/// a blank line, and body lines with no boundary among them, the plain text
/// is what the lines before gave followed by the body's non-blank lines,
/// trimmed, all joined with single spaces.
pub proof fn lemma_plain_text_part_kept(
    content: Seq<char>,
    pre: Seq<Seq<char>>,
    boundary: Seq<char>,
    headers: Seq<Seq<char>>,
    blank: Seq<char>,
    body: Seq<Seq<char>>,
)
    requires
        lines(content) == pre + seq![boundary] + headers + seq![blank] + body,
        is_boundary_line(boundary),
        forall|j: int| 0 <= j < headers.len() ==> !is_boundary_line(#[trigger] headers[j]) && trim(headers[j]).len() > 0,
        exists|j: int| 0 <= j < headers.len() && is_plain_text_header(#[trigger] headers[j]),
        !is_boundary_line(blank),
        trim(blank).len() == 0,
        forall|j: int| 0 <= j < body.len() ==> !is_boundary_line(#[trigger] body[j]),
    ensures
        ({
            let kept = scan_lines(pre).kept + trimmed_nonblank(body);
            plain_text_from_multipart(content) == if kept.len() == 0 {
                None::<Seq<char>>
            } else {
                Some(join(kept, " "@))
            }
        }),
{
    let ls = lines(content);
    let p = pre.len() as int;
    let h = headers.len() as int;
    let q = p + 1 + h;
    let kept = scan_lines(pre).kept;
    assert(ls.take(p) =~= pre);
    lemma_scan_step(ls, p);
    assert(ls[p] == boundary);
    assert forall|j: int| 0 <= j < h implies ls[p + 1 + j] == #[trigger] headers[j] by {}
    lemma_scan_headers(ls, p + 1, headers, kept, h);
    lemma_scan_step(ls, q);
    assert(ls[q] == blank);
    assert forall|j: int| 0 <= j < body.len() implies ls[q + 1 + j] == #[trigger] body[j] by {}
    lemma_scan_body(ls, q + 1, body, kept, body.len() as int);
    assert(body.take(body.len() as int) =~= body);
    assert(ls.take(q + 1 + body.len()) =~= ls);
}

} // verus!
