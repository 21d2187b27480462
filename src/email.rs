//! Messages and folders.
use vstd::prelude::*;
use vstd::string::*;
use crate::text::append_str;
use mail_parser::MimeHeaders;

verus! {

#[derive(Clone, Debug)]
pub struct EmailHeaders {
    pub from: String,
    pub to: String,
    pub subject: String,
    pub date: String,
    pub message_id: String,
}

#[derive(Clone, Debug)]
pub struct Attachment {
    pub filename: String,
    pub content_type: String,
    pub size: usize,
}

/// How far a message has been parsed. The only step is
/// `HeadersOnly -> FullyLoaded`.
#[derive(Clone, Copy, Debug, PartialEq, Eq, Structural)]
pub enum EmailLoadState {
    HeadersOnly,
    FullyLoaded,
}

/// Why a message could not be parsed.
#[derive(Clone, Debug)]
pub enum ParseError {
    /// The message's bytes could not be read; the text says why.
    Unreadable(String),
    /// The parser found no headers in the bytes.
    Malformed,
}

/// A message: headers at first, body and attachments once read.
#[derive(Clone, Debug)]
pub struct Email {
    pub headers: EmailHeaders,
    pub body_text: String,
    pub body_html: Option<String>,
    pub attachments: Vec<Attachment>,
    pub file_path: String,
    pub is_unread: bool,
    pub load_state: EmailLoadState,
    /// The message's bytes as read from disk, kept so that the body can be
    /// parsed on first access without reading the file again.
    pub raw: Option<Vec<u8>>,
}

/// One mailbox of an address header, as the parser splits it.
#[derive(Clone, Debug)]
pub struct AddressParts {
    pub name: Option<String>,
    pub address: Option<String>,
}

/// The header fields the reader shows, as the parser returns them.
#[derive(Clone, Debug)]
pub struct HeaderFields {
    pub from: Option<AddressParts>,
    pub to: Option<AddressParts>,
    pub subject: Option<String>,
    /// The date in RFC 3339 form.
    pub date: Option<String>,
    pub message_id: Option<String>,
}

/// One attachment as the parser describes it.
#[derive(Clone, Debug)]
pub struct AttachmentFields {
    pub name: Option<String>,
    /// Main type and subtype.
    pub content_type: Option<(String, Option<String>)>,
    pub size: usize,
}

/// The body of a message as the parser returns it.
#[derive(Clone, Debug)]
pub struct BodyFields {
    pub text: Option<String>,
    pub html: Option<String>,
    pub attachments: Vec<AttachmentFields>,
}

/// What mail_parser reads from the headers of a raw message; `None` when
/// it finds no headers.
pub uninterp spec fn parsed_header_fields(raw: Seq<u8>) -> Option<HeaderFields>;

/// What mail_parser reads from the body of a raw message; `None` when it
/// finds no headers.
pub uninterp spec fn parsed_body_fields(raw: Seq<u8>) -> Option<BodyFields>;

/// Relies on mail_parser's `MessageParser::parse` and the header accessors
/// of the parsed message (`from`, `to`, `subject`, `date`, `message_id`).
#[verifier::external_body]
fn parse_header_fields(raw: &[u8]) -> (r: Option<HeaderFields>)
    ensures
        r == parsed_header_fields(raw@),
{
    let m = mail_parser::MessageParser::default().parse(raw)?;
    let parts = |a: Option<&mail_parser::Address>| a.and_then(|a| a.first()).map(|a| AddressParts {
        name: a.name().map(String::from),
        address: a.address().map(String::from),
    });
    Some(HeaderFields {
        from: parts(m.from()),
        to: parts(m.to()),
        subject: m.subject().map(String::from),
        date: m.date().map(|d| d.to_rfc3339()),
        message_id: m.message_id().map(String::from),
    })
}

/// Relies on mail_parser's `MessageParser::parse` and the body accessors of
/// the parsed message (`body_text(0)`, `body_html(0)`, `attachments`).
#[verifier::external_body]
fn parse_body_fields(raw: &[u8]) -> (r: Option<BodyFields>)
    ensures
        r == parsed_body_fields(raw@),
{
    let m = mail_parser::MessageParser::default().parse(raw)?;
    let attachments = m.attachments().map(|p| AttachmentFields {
        name: p.attachment_name().map(String::from),
        content_type: p.content_type().map(|ct| (ct.c_type.to_string(), ct.subtype().map(String::from))),
        size: p.len(),
    }).collect();
    Some(BodyFields {
        text: m.body_text(0).map(|t| t.to_string()),
        html: m.body_html(0).map(|h| h.to_string()),
        attachments,
    })
}

/// How an address header is shown: `name <address>`, or whichever part
/// exists, or `Unknown`; empty when the header is missing.
pub open spec fn spec_address_display(a: Option<AddressParts>) -> Seq<char> {
    match a {
        None => Seq::empty(),
        Some(p) => match (p.name, p.address) {
            (Some(n), Some(e)) => n@ + " <"@ + e@ + ">"@,
            (None, Some(e)) => e@,
            (Some(n), None) => n@,
            (None, None) => "Unknown"@,
        },
    }
}

pub open spec fn opt_or(o: Option<String>, d: Seq<char>) -> Seq<char> {
    match o {
        Some(s) => s@,
        None => d,
    }
}

/// The headers shown for parsed header fields.
pub open spec fn spec_headers_of(f: HeaderFields) -> (Seq<char>, Seq<char>, Seq<char>, Seq<char>, Seq<char>) {
    (
        spec_address_display(f.from),
        spec_address_display(f.to),
        opt_or(f.subject, "(no subject)"@),
        opt_or(f.date, Seq::empty()),
        opt_or(f.message_id, Seq::empty()),
    )
}

pub open spec fn headers_view(h: EmailHeaders) -> (Seq<char>, Seq<char>, Seq<char>, Seq<char>, Seq<char>) {
    (h.from@, h.to@, h.subject@, h.date@, h.message_id@)
}

fn string_or(o: &Option<String>, d: &str) -> (r: String)
    ensures
        r@ == opt_or(*o, d@),
{
    match o {
        Some(s) => s.clone(),
        None => String::from_str(d),
    }
}

/// Formats one address header.
pub fn address_display(a: &Option<AddressParts>) -> (r: String)
    ensures
        r@ == spec_address_display(*a),
{
    match a {
        None => String::new(),
        Some(p) => match (&p.name, &p.address) {
            (Some(n), Some(e)) => {
                let mut r = n.clone();
                append_str(&mut r, " <");
                append_str(&mut r, e.as_str());
                append_str(&mut r, ">");
                r
            },
            (None, Some(e)) => e.clone(),
            (Some(n), None) => n.clone(),
            (None, None) => String::from_str("Unknown"),
        },
    }
}

/// The displayed headers for what the parser found.
pub fn headers_from_fields(f: &HeaderFields) -> (r: EmailHeaders)
    ensures
        headers_view(r) == spec_headers_of(*f),
{
    proof {
        reveal_strlit("");
    }
    EmailHeaders {
        from: address_display(&f.from),
        to: address_display(&f.to),
        subject: string_or(&f.subject, "(no subject)"),
        date: string_or(&f.date, ""),
        message_id: string_or(&f.message_id, ""),
    }
}

/// An attachment's description: a missing name becomes
/// `unnamed_attachment`, a missing type `application/octet-stream`, and a
/// missing subtype `*`.
pub open spec fn spec_attachment_of(a: AttachmentFields) -> (Seq<char>, Seq<char>, usize) {
    (
        opt_or(a.name, "unnamed_attachment"@),
        match a.content_type {
            Some((t, sub)) => t@ + "/"@ + opt_or(sub, "*"@),
            None => "application/octet-stream"@,
        },
        a.size,
    )
}

pub open spec fn attachment_view(a: Attachment) -> (Seq<char>, Seq<char>, usize) {
    (a.filename@, a.content_type@, a.size)
}

pub fn attachment_from_fields(a: &AttachmentFields) -> (r: Attachment)
    ensures
        attachment_view(r) == spec_attachment_of(*a),
{
    let content_type = match &a.content_type {
        Some((t, sub)) => {
            let mut r = t.clone();
            append_str(&mut r, "/");
            let s = string_or(sub, "*");
            append_str(&mut r, s.as_str());
            r
        },
        None => String::from_str("application/octet-stream"),
    };
    Attachment { filename: string_or(&a.name, "unnamed_attachment"), content_type, size: a.size }
}

/// The message after its body fields are taken in: text and HTML replace
/// the old ones where present, attachments are appended.
pub open spec fn body_applied(e: Email, b: BodyFields, r: Email) -> bool {
    &&& r.file_path == e.file_path
    &&& r.is_unread == e.is_unread
    &&& r.raw == e.raw
    &&& r.body_text@ == opt_or(b.text, e.body_text@)
    &&& r.body_html == (match b.html { Some(h) => Some(h), None => e.body_html })
    &&& r.attachments@.len() == e.attachments@.len() + b.attachments@.len()
    &&& (forall|i: int| 0 <= i < e.attachments@.len() ==> r.attachments@[i] == e.attachments@[i])
    &&& (forall|i: int| 0 <= i < b.attachments@.len() ==>
            attachment_view(#[trigger] r.attachments@[e.attachments@.len() + i]) == spec_attachment_of(b.attachments@[i]))
}

impl Email {
    pub fn new(file_path: String) -> (r: Email)
        ensures
            r.file_path == file_path,
            r.headers.from@ == Seq::<char>::empty(),
            r.headers.to@ == Seq::<char>::empty(),
            r.headers.subject@ == Seq::<char>::empty(),
            r.headers.date@ == Seq::<char>::empty(),
            r.headers.message_id@ == Seq::<char>::empty(),
            r.body_text@ == Seq::<char>::empty(),
            r.body_html is None,
            r.attachments@.len() == 0,
            !r.is_unread,
            r.load_state == EmailLoadState::HeadersOnly,
            r.raw is None,
    {
        Email {
            headers: EmailHeaders {
                from: String::new(),
                to: String::new(),
                subject: String::new(),
                date: String::new(),
                message_id: String::new(),
            },
            body_text: String::new(),
            body_html: None,
            attachments: Vec::new(),
            file_path,
            is_unread: false,
            load_state: EmailLoadState::HeadersOnly,
            raw: None,
        }
    }

    /// Takes in the message's bytes and parses its headers only. The bytes
    /// are kept for a later full parse.
    pub fn parse_headers_only(&mut self, raw: Vec<u8>) -> (r: Result<(), ParseError>)
        ensures
            r is Ok <==> parsed_header_fields(raw@) is Some,
            r is Err ==> r->Err_0 is Malformed && *final(self) == *old(self),
            r is Ok ==> {
                &&& headers_view(final(self).headers) == spec_headers_of(parsed_header_fields(raw@)->Some_0)
                &&& final(self).raw == Some(raw)
                &&& final(self).body_text == old(self).body_text
                &&& final(self).body_html == old(self).body_html
                &&& final(self).attachments == old(self).attachments
                &&& final(self).file_path == old(self).file_path
                &&& final(self).is_unread == old(self).is_unread
                &&& final(self).load_state == old(self).load_state
            },
    {
        match parse_header_fields(raw.as_slice()) {
            None => Err(ParseError::Malformed),
            Some(f) => {
                self.headers = headers_from_fields(&f);
                self.raw = Some(raw);
                Ok(())
            },
        }
    }

    /// Parses headers and body from the kept bytes and marks the message
    /// fully loaded.
    fn parse_full(&mut self) -> (r: Result<(), ParseError>)
        ensures
            spec_full_parse(*old(self), *final(self), r),
    {
        let raw = match &self.raw {
            None => {
                return Err(ParseError::Unreadable(String::from_str("message not read")));
            },
            Some(raw) => raw.as_slice(),
        };
        let hf = parse_header_fields(raw);
        let bf = parse_body_fields(raw);
        match (hf, bf) {
            (Some(h), Some(b)) => {
                let ghost before = *self;
                self.headers = headers_from_fields(&h);
                if let Some(t) = &b.text {
                    self.body_text = t.clone();
                }
                if let Some(t) = &b.html {
                    self.body_html = Some(t.clone());
                }
                let mut i: usize = 0;
                while i < b.attachments.len()
                    invariant
                        i <= b.attachments@.len(),
                        self.attachments@.len() == before.attachments@.len() + i,
                        forall|k: int| 0 <= k < before.attachments@.len() ==> self.attachments@[k] == before.attachments@[k],
                        forall|k: int| 0 <= k < i ==>
                            attachment_view(#[trigger] self.attachments@[before.attachments@.len() + k]) == spec_attachment_of(b.attachments@[k]),
                        headers_view(self.headers) == spec_headers_of(h),
                        self.file_path == before.file_path,
                        self.is_unread == before.is_unread,
                        self.raw == before.raw,
                        self.body_text@ == opt_or(b.text, before.body_text@),
                        self.body_html == (match b.html { Some(h) => Some(h), None => before.body_html }),
                    decreases b.attachments@.len() - i,
                {
                    let a = attachment_from_fields(&b.attachments[i]);
                    self.attachments.push(a);
                    i = i + 1;
                }
                self.load_state = EmailLoadState::FullyLoaded;
                Ok(())
            },
            _ => Err(ParseError::Malformed),
        }
    }

    /// Parses the body the first time it is needed; a message already fully
    /// loaded is left as it is.
    pub fn ensure_fully_loaded(&mut self) -> (r: Result<(), ParseError>)
        ensures
            old(self).load_state == EmailLoadState::FullyLoaded ==> r is Ok && *final(self) == *old(self),
            old(self).load_state == EmailLoadState::HeadersOnly ==> spec_full_parse(*old(self), *final(self), r),
            r is Ok <==> loads_fully(*old(self)),
            after_full_load(*old(self), *final(self)),
    {
        match self.load_state {
            EmailLoadState::HeadersOnly => self.parse_full(),
            EmailLoadState::FullyLoaded => Ok(()),
        }
    }

    /// `From`, `To`, `Subject` and `Date`, one per line.
    pub fn get_header_display(&self) -> (r: String)
        ensures
            r@ == "From: "@ + self.headers.from@ + "\nTo: "@ + self.headers.to@ + "\nSubject: "@
                + self.headers.subject@ + "\nDate: "@ + self.headers.date@,
    {
        let mut r = String::from_str("From: ");
        append_str(&mut r, self.headers.from.as_str());
        append_str(&mut r, "\nTo: ");
        append_str(&mut r, self.headers.to.as_str());
        append_str(&mut r, "\nSubject: ");
        append_str(&mut r, self.headers.subject.as_str());
        append_str(&mut r, "\nDate: ");
        append_str(&mut r, self.headers.date.as_str());
        r
    }

    pub fn has_attachments(&self) -> (r: bool)
        ensures
            r == (self.attachments@.len() > 0),
    {
        self.attachments.len() > 0
    }

    pub fn attachment_count(&self) -> (r: usize)
        ensures
            r == self.attachments@.len(),
    {
        self.attachments.len()
    }
}

/// The outcome of a full parse: without kept bytes it fails as unreadable
/// and changes nothing; with bytes that the parser rejects it fails as
/// malformed and changes nothing; otherwise headers and body are taken in
/// and the message is fully loaded.
pub open spec fn spec_full_parse(e: Email, r: Email, res: Result<(), ParseError>) -> bool {
    match e.raw {
        None => res is Err && res->Err_0 is Unreadable && r == e,
        Some(raw) => {
            if parsed_header_fields(raw@) is Some && parsed_body_fields(raw@) is Some {
                &&& res is Ok
                &&& r.load_state == EmailLoadState::FullyLoaded
                &&& headers_view(r.headers) == spec_headers_of(parsed_header_fields(raw@)->Some_0)
                &&& body_applied(e, parsed_body_fields(raw@)->Some_0, r)
            } else {
                res is Err && res->Err_0 is Malformed && r == e
            }
        },
    }
}

/// Whether asking for the body of `e` succeeds: it is already parsed, or
/// its kept bytes parse.
pub open spec fn loads_fully(e: Email) -> bool {
    e.load_state == EmailLoadState::FullyLoaded || (e.raw matches Some(raw) && parsed_header_fields(raw@) is Some
        && parsed_body_fields(raw@) is Some)
}

/// `r` is `e` after its body was asked for.
pub open spec fn after_full_load(e: Email, r: Email) -> bool {
    if e.load_state == EmailLoadState::HeadersOnly && loads_fully(e) {
        let raw = e.raw->Some_0;
        &&& r.load_state == EmailLoadState::FullyLoaded
        &&& headers_view(r.headers) == spec_headers_of(parsed_header_fields(raw@)->Some_0)
        &&& body_applied(e, parsed_body_fields(raw@)->Some_0, r)
    } else {
        r == e
    }
}

} // verus!
