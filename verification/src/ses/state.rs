//! The SES emulator's state: verified identities and the messages accepted.
use vstd::prelude::*;
use crate::runtime::{base64_bytes, base64_decode, hex_encode, hex_lower, new_uuid, now_rfc3339, random_u8, utf8_lossy, utf8_lossy_text};
use crate::ses::types::{
    Content, DeleteIdentityRequest, GetIdentityVerificationAttributesRequest, GetIdentityVerificationAttributesResponse, GetSendStatisticsResponse,
    IdentityVerificationAttributes, ListIdentitiesRequest, ListIdentitiesResponse, SendDataPoint, SendEmailRequest,
    SendEmailResponse, SendRawEmailRequest, SendRawEmailResponse, SentEmail, SesStateSnapshot, Template,
    VerifyDomainIdentityRequest, VerifyDomainIdentityResponse, VerifyEmailIdentityRequest,
};
use crate::table::Table;
use crate::text::{
    append, contains_char, contains_str, find_sub, find_sub_exec, is_prefix, split_char, split_on, str_eq,
    strip_prefix, to_chars, chars_to_string, trim, trim_angle_brackets, trim_angles, trim_ws, views,
};

verus! {

/// Why an SES request failed, with a message.
#[derive(Debug)]
pub enum SesError {
    NotFound(String),
    AlreadyExists(String),
    Validation(String),
    InvalidParameter(String),
    MessageRejected(String),
}

impl SesError {
    /// The error code that SES returns.
    pub fn code(&self) -> (r: &'static str)
        ensures
            r@ == self.code_spec(),
    {
        match self {
            SesError::NotFound(_) => "NotFound",
            SesError::AlreadyExists(_) => "AlreadyExists",
            SesError::Validation(_) => "ValidationError",
            SesError::InvalidParameter(_) => "InvalidParameterValue",
            SesError::MessageRejected(_) => "MessageRejected",
        }
    }

    /// The HTTP status of the error.
    pub fn status(&self) -> (r: u16)
        ensures
            r == self.status_spec(),
    {
        match self {
            SesError::NotFound(_) => 404,
            SesError::AlreadyExists(_) => 409,
            _ => 400,
        }
    }

    /// The message of the error.
    pub fn message(&self) -> (r: &String)
        ensures
            r@ == self.message_view(),
    {
        match self {
            SesError::NotFound(m) => m,
            SesError::AlreadyExists(m) => m,
            SesError::Validation(m) => m,
            SesError::InvalidParameter(m) => m,
            SesError::MessageRejected(m) => m,
        }
    }

    /// The error code, as text.
    pub open spec fn code_spec(&self) -> Seq<char> {
        match self {
            SesError::NotFound(_) => "NotFound"@,
            SesError::AlreadyExists(_) => "AlreadyExists"@,
            SesError::Validation(_) => "ValidationError"@,
            SesError::InvalidParameter(_) => "InvalidParameterValue"@,
            SesError::MessageRejected(_) => "MessageRejected"@,
        }
    }

    /// The HTTP status of the error.
    pub open spec fn status_spec(&self) -> u16 {
        match self {
            SesError::NotFound(_) => 404u16,
            SesError::AlreadyExists(_) => 409u16,
            _ => 400u16,
        }
    }

    /// The message of the error, as text.
    pub open spec fn message_view(&self) -> Seq<char> {
        match self {
            SesError::NotFound(m) => m@,
            SesError::AlreadyExists(m) => m@,
            SesError::Validation(m) => m@,
            SesError::InvalidParameter(m) => m@,
            SesError::MessageRejected(m) => m@,
        }
    }
}

/// `e` is an invalid-parameter error with message `m`.
pub open spec fn invalid_parameter(e: SesError, m: Seq<char>) -> bool {
    e matches SesError::InvalidParameter(s) && s@ == m
}

/// A sent message as text.
pub struct SentEmailView {
    pub timestamp: Seq<char>,
    pub message_id: Seq<char>,
    pub source: Seq<char>,
    pub destinations: Seq<Seq<char>>,
    pub subject: Option<Seq<char>>,
    pub body_text: Option<Seq<char>>,
    pub body_html: Option<Seq<char>>,
    pub raw_data: Option<Seq<char>>,
}

/// An optional string as optional text.
pub open spec fn opt_text(o: Option<String>) -> Option<Seq<char>> {
    match o {
        Some(s) => Some(s@),
        None => None,
    }
}

/// The data of an optional content, as optional text.
pub open spec fn content_text(o: Option<Content>) -> Option<Seq<char>> {
    match o {
        Some(c) => Some(c.data@),
        None => None,
    }
}

/// A copy of an optional string.
pub fn copy_opt(o: &Option<String>) -> (r: Option<String>)
    ensures
        opt_text(r) == opt_text(*o),
{
    match o {
        Some(s) => Some(s.clone()),
        None => None,
    }
}

/// A copy of a list of strings.
pub fn copy_strings(v: &Vec<String>) -> (r: Vec<String>)
    ensures
        views(r@) == views(v@),
{
    let mut r: Vec<String> = Vec::new();
    let mut i: usize = 0;
    while i < v.len()
        invariant
            i <= v@.len(),
            r@.len() == i,
            forall|j: int| 0 <= j < i ==> #[trigger] r@[j] == v@[j],
        decreases v.len() - i,
    {
        r.push(v[i].clone());
        i = i + 1;
    }
    assert(views(r@) =~= views(v@));
    r
}

impl SentEmail {
    pub open spec fn view(&self) -> SentEmailView {
        SentEmailView {
            timestamp: self.timestamp@,
            message_id: self.message_id@,
            source: self.source@,
            destinations: views(self.destinations@),
            subject: opt_text(self.subject),
            body_text: opt_text(self.body_text),
            body_html: opt_text(self.body_html),
            raw_data: opt_text(self.raw_data),
        }
    }

    /// A copy of the record.
    pub fn copy(&self) -> (r: Self)
        ensures
            r@ == self@,
    {
        SentEmail {
            timestamp: self.timestamp.clone(),
            message_id: self.message_id.clone(),
            source: self.source.clone(),
            destinations: copy_strings(&self.destinations),
            subject: copy_opt(&self.subject),
            body_text: copy_opt(&self.body_text),
            body_html: copy_opt(&self.body_html),
            raw_data: copy_opt(&self.raw_data),
        }
    }
}

/// The views of a list of sent messages.
pub open spec fn sent_views(v: Seq<SentEmail>) -> Seq<SentEmailView> {
    v.map_values(|e: SentEmail| e@)
}

/// Copies of a list of sent messages.
pub fn copy_sent(v: &Vec<SentEmail>) -> (r: Vec<SentEmail>)
    ensures
        sent_views(r@) == sent_views(v@),
{
    let mut r: Vec<SentEmail> = Vec::new();
    let mut i: usize = 0;
    while i < v.len()
        invariant
            i <= v@.len(),
            r@.len() == i,
            forall|j: int| 0 <= j < i ==> #[trigger] r@[j]@ == v@[j]@,
        decreases v.len() - i,
    {
        r.push(v[i].copy());
        i = i + 1;
    }
    assert(sent_views(r@) =~= sent_views(v@));
    r
}

/// The shape of a message id: `010001`, two hex digits of a random byte, `-`,
/// a UUID, `-000000`.
pub open spec fn is_message_id(id: Seq<char>) -> bool {
    exists|b: u8, u: Seq<char>|
        u.len() == 36 && id == "010001"@ + hex_lower(seq![b]) + "-"@ + u + "-000000"@
}

/// The SES emulator: the verified identities and the messages accepted.
pub struct SesState {
    pub account_id: String,
    pub region: String,
    identities: Table<()>,
    sent_emails: Vec<SentEmail>,
}

/// What the headers of a raw message give: the sender, the recipients and the subject.
pub struct RawHeaders {
    pub source: Option<Seq<char>>,
    pub destinations: Seq<Seq<char>>,
    pub subject: Option<Seq<char>>,
}

/// The recipients in the entries of a `To:` header: each entry trimmed of white
/// space and then of angle brackets, empty ones skipped.
pub open spec fn to_addresses(entries: Seq<Seq<char>>) -> Seq<Seq<char>>
    decreases entries.len(),
{
    if entries.len() == 0 {
        Seq::empty()
    } else {
        let prev = to_addresses(entries.drop_last());
        let c = trim_angles(trim_ws(entries.last()));
        if c.len() == 0 { prev } else { prev.push(c) }
    }
}

/// The headers after one more (trimmed) header line.
pub open spec fn read_header(h: RawHeaders, line: Seq<char>) -> RawHeaders {
    if is_prefix("From:"@, line) {
        RawHeaders { source: Some(trim_angles(trim_ws(line.subrange("From:"@.len() as int, line.len() as int)))), ..h }
    } else if is_prefix("To:"@, line) {
        RawHeaders {
            destinations: h.destinations + to_addresses(split_on(line.subrange("To:"@.len() as int, line.len() as int), ',')),
            ..h
        }
    } else if is_prefix("Subject:"@, line) {
        RawHeaders { subject: Some(trim_ws(line.subrange("Subject:"@.len() as int, line.len() as int))), ..h }
    } else {
        h
    }
}

/// The headers read from a sequence of header lines, each trimmed first.
pub open spec fn read_headers(lines: Seq<Seq<char>>) -> RawHeaders
    decreases lines.len(),
{
    if lines.len() == 0 {
        RawHeaders { source: None, destinations: Seq::empty(), subject: None }
    } else {
        read_header(read_headers(lines.drop_last()), trim_ws(lines.last()))
    }
}

/// The text of a raw message: the Base64 decoding of the trimmed data, read as
/// UTF-8, when it is Base64, and the data itself otherwise.
pub open spec fn raw_content(data: Seq<char>) -> Seq<char> {
    match base64_bytes(trim_ws(data)) {
        Some(b) => utf8_lossy_text(b),
        None => data,
    }
}

/// The header part and the body of a message, split at the first blank line
/// (`\r\n\r\n`, else `\n\n`); without one, all of it is header.
pub open spec fn split_message(c: Seq<char>) -> (Seq<char>, Option<Seq<char>>) {
    match find_sub(c, "\r\n\r\n"@) {
        Some(j) => (c.subrange(0, j as int), Some(c.subrange((j + "\r\n\r\n"@.len()) as int, c.len() as int))),
        None => match find_sub(c, "\n\n"@) {
            Some(j) => (c.subrange(0, j as int), Some(c.subrange((j + "\n\n"@.len()) as int, c.len() as int))),
            None => (c, None),
        },
    }
}

/// A body is HTML when it holds `<html`, `<HTML` or `<!DOCTYPE`.
pub open spec fn is_html(body: Seq<char>) -> bool {
    find_sub(body, "<html"@) is Some || find_sub(body, "<HTML"@) is Some || find_sub(body, "<!DOCTYPE"@) is Some
}

/// What a raw message gives: sender, recipients, subject, text body, HTML body.
pub struct ParsedRaw {
    pub headers: RawHeaders,
    pub body_text: Option<Seq<char>>,
    pub body_html: Option<Seq<char>>,
}

/// The parse of a raw message.
pub open spec fn parse_raw(data: Seq<char>) -> ParsedRaw {
    let (header, body) = split_message(raw_content(data));
    ParsedRaw {
        headers: read_headers(split_on(header, '\n')),
        body_text: match body {
            Some(b) => if is_html(b) { None } else { Some(b) },
            None => None,
        },
        body_html: match body {
            Some(b) => if is_html(b) { Some(b) } else { None },
            None => None,
        },
    }
}

/// The pieces of `v` before and after the first occurrence of `sep`, if any.
fn split_once(v: &Vec<char>, sep: &str) -> (r: Option<(String, String)>)
    ensures
        match find_sub(v@, sep@) {
            Some(j) => r matches Some(p) && p.0@ == v@.subrange(0, j as int)
                && p.1@ == v@.subrange((j + sep@.len()) as int, v@.len() as int),
            None => r is None,
        },
{
    let d = to_chars(sep);
    assert(v@.subrange(0, v@.len() as int) =~= v@);
    assert(find_sub(v@.subrange(0, v@.len() as int), d@) == find_sub(v@, d@));
    match find_sub_exec(v, 0, &d) {
        Some(j) => {
            proof {
                crate::text::lemma_find_sub_bound(v@, d@);
                let k = find_sub(v@, d@)->0;
            }
            let n = v.len();
            assert(j + d@.len() <= n);
            let e = j + d.len();
            Some((chars_to_string(v.as_slice(), 0, j), chars_to_string(v.as_slice(), e, v.len())))
        },
        None => None,
    }
}

/// Adds the recipients of the value of a `To:` header.
fn add_to_addresses(dests: &mut Vec<String>, value: &str)
    ensures
        views(final(dests)@) == views(old(dests)@) + to_addresses(split_on(value@, ',')),
{
    let parts = split_char(value, ',');
    let ghost base = views(dests@);
    let ghost ps = views(parts@);
    let mut j: usize = 0;
    while j < parts.len()
        invariant
            ps == views(parts@),
            ps == split_on(value@, ','),
            j <= ps.len(),
            views(dests@) == base + to_addresses(ps.subrange(0, j as int)),
        decreases ps.len() - j,
    {
        assert(ps.subrange(0, j + 1).drop_last() =~= ps.subrange(0, j as int));
        let t = trim(parts[j].as_str());
        let clean = trim_angle_brackets(t.as_str());
        let ghost before = dests@;
        if !clean.as_str().is_empty() {
            dests.push(clean);
            assert(views(dests@) =~= views(before).push(clean@));
        }
        j = j + 1;
        assert(views(dests@) =~= base + to_addresses(ps.subrange(0, j as int)));
    }
    assert(ps.subrange(0, ps.len() as int) =~= ps);
}

/// Reads the sender, recipients, subject and body of a raw MIME message.
pub fn parse_raw_email(raw_input: &str) -> (r: (Option<String>, Vec<String>, Option<String>, Option<String>, Option<String>))
    ensures
        opt_text(r.0) == parse_raw(raw_input@).headers.source,
        views(r.1@) == parse_raw(raw_input@).headers.destinations,
        opt_text(r.2) == parse_raw(raw_input@).headers.subject,
        opt_text(r.3) == parse_raw(raw_input@).body_text,
        opt_text(r.4) == parse_raw(raw_input@).body_html,
{
    let t = trim(raw_input);
    let content = match base64_decode(t.as_str()) {
        Some(b) => utf8_lossy(b.as_slice()),
        None => raw_input.to_owned(),
    };
    assert(content@ == raw_content(raw_input@));
    let v = to_chars(content.as_str());
    let (header, body): (String, Option<String>) = match split_once(&v, "\r\n\r\n") {
        Some(p) => (p.0, Some(p.1)),
        None => match split_once(&v, "\n\n") {
            Some(p) => (p.0, Some(p.1)),
            None => (content, None),
        },
    };
    assert(header@ == split_message(raw_content(raw_input@)).0);
    assert(opt_text(body) == split_message(raw_content(raw_input@)).1);
    let lines = split_char(header.as_str(), '\n');
    let ghost ls = views(lines@);
    let mut source: Option<String> = None;
    let mut destinations: Vec<String> = Vec::new();
    let mut subject: Option<String> = None;
    let mut i: usize = 0;
    while i < lines.len()
        invariant
            ls == views(lines@),
            i <= ls.len(),
            opt_text(source) == read_headers(ls.subrange(0, i as int)).source,
            views(destinations@) == read_headers(ls.subrange(0, i as int)).destinations,
            opt_text(subject) == read_headers(ls.subrange(0, i as int)).subject,
        decreases ls.len() - i,
    {
        assert(ls.subrange(0, i + 1).drop_last() =~= ls.subrange(0, i as int));
        assert(ls.subrange(0, i + 1).last() == ls[i as int]);
        let line = trim(lines[i].as_str());
        match strip_prefix(line.as_str(), "From:") {
            Some(rest) => {
                let t = trim(rest.as_str());
                source = Some(trim_angle_brackets(t.as_str()));
            },
            None => match strip_prefix(line.as_str(), "To:") {
                Some(rest) => {
                    add_to_addresses(&mut destinations, rest.as_str());
                },
                None => match strip_prefix(line.as_str(), "Subject:") {
                    Some(rest) => {
                        subject = Some(trim(rest.as_str()));
                    },
                    None => {},
                },
            },
        }
        i = i + 1;
    }
    assert(ls.subrange(0, ls.len() as int) =~= ls);
    let mut body_text: Option<String> = None;
    let mut body_html: Option<String> = None;
    match body {
        Some(b) => {
            if contains_str(b.as_str(), "<html") || contains_str(b.as_str(), "<HTML") || contains_str(b.as_str(), "<!DOCTYPE") {
                body_html = Some(b);
            } else {
                body_text = Some(b);
            }
        },
        None => {},
    }
    (source, destinations, subject, body_text, body_html)
}

/// Whether an identity is of the listed type: an email address holds `@`, a
/// domain does not; any other type, or none, admits all.
pub open spec fn kind_admits(kind: Option<Seq<char>>, id: Seq<char>) -> bool {
    match kind {
        Some(k) => if k == "EmailAddress"@ {
            id.contains('@')
        } else if k == "Domain"@ {
            !id.contains('@')
        } else {
            true
        },
        None => true,
    }
}

/// The identities of `ids` of the listed type, in order.
pub open spec fn filter_ids(ids: Seq<Seq<char>>, kind: Option<Seq<char>>) -> Seq<Seq<char>>
    decreases ids.len(),
{
    if ids.len() == 0 {
        Seq::empty()
    } else {
        let prev = filter_ids(ids.drop_last(), kind);
        if kind_admits(kind, ids.last()) { prev.push(ids.last()) } else { prev }
    }
}

/// The first `n` items of `s`, or all of them when there are fewer.
pub open spec fn take_at_most(s: Seq<Seq<char>>, n: nat) -> Seq<Seq<char>> {
    if s.len() > n { s.take(n as int) } else { s }
}

impl SesState {
    /// The verified identities.
    pub closed spec fn identities(&self) -> Set<Seq<char>> {
        self.identities@.dom()
    }

    /// The verified identities in ascending order.
    pub closed spec fn identity_list(&self) -> Seq<Seq<char>> {
        self.identities.keys()
    }

    /// The messages accepted, oldest first.
    pub closed spec fn sent(&self) -> Seq<SentEmailView> {
        sent_views(self.sent_emails@)
    }

    /// The account the emulator answers for.
    pub closed spec fn account(&self) -> Seq<char> {
        self.account_id@
    }

    /// The region the emulator answers for.
    pub closed spec fn home_region(&self) -> Seq<char> {
        self.region@
    }

    /// The identity table is well formed.
    pub closed spec fn wf(&self) -> bool {
        self.identities.wf()
    }

    /// The identity list holds each identity once, in ascending order.
    pub proof fn lemma_identity_list(&self)
        requires
            self.wf(),
        ensures
            self.identity_list().len() == self.identities().len(),
            self.identities().finite(),
            forall|i: int| 0 <= i < self.identity_list().len() ==> #[trigger] self.identities().contains(self.identity_list()[i]),
            forall|k: Seq<char>| #[trigger] self.identities().contains(k) ==> self.identity_list().contains(k),
            forall|i: int, j: int| 0 <= i < j < self.identity_list().len() ==>
                crate::text::seq_lt(#[trigger] self.identity_list()[i], #[trigger] self.identity_list()[j]),
    {
        self.identities.lemma_wf();
        assert forall|k: Seq<char>| #[trigger] self.identities().contains(k) implies self.identity_list().contains(k) by {
            assert(self.identities@.contains_key(k));
            let i = choose|i: int| 0 <= i < self.identities.keys().len() && self.identities.keys()[i] == k;
            assert(self.identity_list()[i] == k);
        }
    }

    /// An empty emulator for an account and region.
    pub fn new(account_id: &str, region: &str) -> (s: Self)
        ensures
            s.wf(),
            s.account() == account_id@,
            s.home_region() == region@,
            s.identities() == Set::<Seq<char>>::empty(),
            s.sent() == Seq::<SentEmailView>::empty(),
    {
        let s = SesState {
            account_id: account_id.to_owned(),
            region: region.to_owned(),
            identities: Table::new(),
            sent_emails: Vec::new(),
        };
        assert(s.identities() =~= Set::<Seq<char>>::empty());
        assert(s.sent() =~= Seq::<SentEmailView>::empty());
        s
    }

    /// A fresh message id.
    fn generate_message_id(&self) -> (id: String)
        ensures
            is_message_id(id@),
    {
        let b = random_u8();
        let bytes: Vec<u8> = vec![b];
        let h = hex_encode(bytes.as_slice());
        let u = new_uuid();
        let mut id = String::new();
        append(&mut id, "010001");
        append(&mut id, h.as_str());
        append(&mut id, "-");
        append(&mut id, u.as_str());
        append(&mut id, "-000000");
        assert(bytes@ =~= seq![b]);
        assert(id@ =~= "010001"@ + hex_lower(seq![b]) + "-"@ + u@ + "-000000"@);
        id
    }

    /// Accepts a formatted message for the `To`, `Cc` and `Bcc` recipients.
    pub fn send_email(&mut self, req: SendEmailRequest) -> (r: Result<SendEmailResponse, SesError>)
        requires
            old(self).wf(),
        ensures
            final(self).wf(),
            final(self).identities() == old(self).identities(),
            final(self).account() == old(self).account(),
            final(self).home_region() == old(self).home_region(),
            trim_ws(req.source@).len() == 0 ==> (r matches Err(e)
                && invalid_parameter(e, "Source email address must not be empty"@)),
            trim_ws(req.source@).len() != 0 && req.destination.to_addresses@.len() + req.destination.cc_addresses@.len()
                + req.destination.bcc_addresses@.len() == 0 ==> (r matches Err(e)
                && invalid_parameter(e, "At least one destination address (To, Cc, or Bcc) must be specified"@)),
            r is Err ==> final(self).sent() == old(self).sent(),
            r matches Ok(resp) ==> {
                &&& trim_ws(req.source@).len() != 0
                &&& is_message_id(resp.message_id@)
                &&& final(self).sent() == old(self).sent().push(SentEmailView {
                    timestamp: final(self).sent().last().timestamp,
                    message_id: resp.message_id@,
                    source: req.source@,
                    destinations: views(req.destination.to_addresses@) + views(req.destination.cc_addresses@)
                        + views(req.destination.bcc_addresses@),
                    subject: Some(req.message.subject.data@),
                    body_text: content_text(req.message.body.text),
                    body_html: content_text(req.message.body.html),
                    raw_data: None,
                })
            },
            trim_ws(req.source@).len() != 0 && req.destination.to_addresses@.len() + req.destination.cc_addresses@.len()
                + req.destination.bcc_addresses@.len() != 0 ==> r is Ok,
    {
        let t = trim(req.source.as_str());
        if t.as_str().is_empty() {
            return Err(SesError::InvalidParameter("Source email address must not be empty".to_owned()));
        }
        let mut destinations = copy_strings(&req.destination.to_addresses);
        let mut cc = copy_strings(&req.destination.cc_addresses);
        let mut bcc = copy_strings(&req.destination.bcc_addresses);
        let ghost d0 = destinations@;
        let ghost c0 = cc@;
        let ghost b0 = bcc@;
        destinations.append(&mut cc);
        destinations.append(&mut bcc);
        assert(destinations@ =~= d0 + c0 + b0);
        assert(views(destinations@) =~= views(d0) + views(c0) + views(b0));
        if destinations.len() == 0 {
            return Err(SesError::InvalidParameter(
                "At least one destination address (To, Cc, or Bcc) must be specified".to_owned(),
            ));
        }
        let message_id = self.generate_message_id();
        let now = now_rfc3339();
        let subject = Some(req.message.subject.data.clone());
        let body_text = match &req.message.body.text {
            Some(c) => Some(c.data.clone()),
            None => None,
        };
        let body_html = match &req.message.body.html {
            Some(c) => Some(c.data.clone()),
            None => None,
        };
        let sent = SentEmail {
            timestamp: now,
            message_id: message_id.clone(),
            source: req.source,
            destinations,
            subject,
            body_text,
            body_html,
            raw_data: None,
        };
        let ghost before = self.sent_emails@;
        self.sent_emails.push(sent);
        assert(sent_views(self.sent_emails@) =~= sent_views(before).push(sent@));
        Ok(SendEmailResponse { message_id })
    }
    /// Accepts a raw MIME message. Sender and recipients come from the request
    /// when it names them, else from the message's headers.
    pub fn send_raw_email(&mut self, req: SendRawEmailRequest) -> (r: Result<SendRawEmailResponse, SesError>)
        requires
            old(self).wf(),
        ensures
            final(self).wf(),
            final(self).identities() == old(self).identities(),
            final(self).account() == old(self).account(),
            final(self).home_region() == old(self).home_region(),
            trim_ws(req.raw_message.data@).len() == 0 <==> r is Err,
            r matches Err(e) ==> invalid_parameter(e, "RawMessage.Data must not be empty"@)
                && final(self).sent() == old(self).sent(),
            r matches Ok(resp) ==> {
                let p = parse_raw(req.raw_message.data@);
                let given = match req.destinations { Some(d) => views(d@), None => Seq::empty() };
                &&& is_message_id(resp.message_id@)
                &&& final(self).sent() == old(self).sent().push(SentEmailView {
                    timestamp: final(self).sent().last().timestamp,
                    message_id: resp.message_id@,
                    source: match req.source {
                        Some(s) => s@,
                        None => match p.headers.source {
                            Some(s) => s,
                            None => "unknown@example.com"@,
                        },
                    },
                    destinations: if given.len() == 0 { p.headers.destinations } else { given },
                    subject: p.headers.subject,
                    body_text: p.body_text,
                    body_html: p.body_html,
                    raw_data: Some(req.raw_message.data@),
                })
            },
    {
        let t = trim(req.raw_message.data.as_str());
        if t.as_str().is_empty() {
            return Err(SesError::InvalidParameter("RawMessage.Data must not be empty".to_owned()));
        }
        let message_id = self.generate_message_id();
        let now = now_rfc3339();
        let (parsed_source, parsed_destinations, parsed_subject, parsed_body_text, parsed_body_html) =
            parse_raw_email(req.raw_message.data.as_str());
        let source = match req.source {
            Some(s) => s,
            None => match parsed_source {
                Some(s) => s,
                None => "unknown@example.com".to_owned(),
            },
        };
        let mut destinations = match req.destinations {
            Some(d) => d,
            None => Vec::new(),
        };
        if destinations.len() == 0 {
            destinations = parsed_destinations;
        }
        let sent = SentEmail {
            timestamp: now,
            message_id: message_id.clone(),
            source,
            destinations,
            subject: parsed_subject,
            body_text: parsed_body_text,
            body_html: parsed_body_html,
            raw_data: Some(req.raw_message.data),
        };
        let ghost before = self.sent_emails@;
        self.sent_emails.push(sent);
        assert(sent_views(self.sent_emails@) =~= sent_views(before).push(sent@));
        Ok(SendRawEmailResponse { message_id })
    }

    /// Records an email address as verified (trimmed).
    pub fn verify_email_identity(&mut self, req: VerifyEmailIdentityRequest) -> (r: Result<(), SesError>)
        requires
            old(self).wf(),
        ensures
            final(self).wf(),
            final(self).sent() == old(self).sent(),
            final(self).account() == old(self).account(),
            final(self).home_region() == old(self).home_region(),
            trim_ws(req.email_address@).len() == 0 <==> r is Err,
            r matches Err(e) ==> invalid_parameter(e, "EmailAddress must not be empty"@)
                && final(self).identities() == old(self).identities(),
            r is Ok ==> final(self).identities() == old(self).identities().insert(trim_ws(req.email_address@)),
    {
        let t = trim(req.email_address.as_str());
        if t.as_str().is_empty() {
            return Err(SesError::InvalidParameter("EmailAddress must not be empty".to_owned()));
        }
        let ghost before = self.identities@;
        let ghost k = t@;
        self.identities.insert(t, ());
        assert(self.identities@.dom() =~= before.dom().insert(k));
        Ok(())
    }

    /// Records a domain as verified (trimmed) and hands out a verification token.
    pub fn verify_domain_identity(&mut self, req: VerifyDomainIdentityRequest) -> (r: Result<VerifyDomainIdentityResponse, SesError>)
        requires
            old(self).wf(),
        ensures
            final(self).wf(),
            final(self).sent() == old(self).sent(),
            final(self).account() == old(self).account(),
            final(self).home_region() == old(self).home_region(),
            trim_ws(req.domain@).len() == 0 <==> r is Err,
            r matches Err(e) ==> invalid_parameter(e, "Domain must not be empty"@)
                && final(self).identities() == old(self).identities(),
            r matches Ok(resp) ==> final(self).identities() == old(self).identities().insert(trim_ws(req.domain@))
                && resp.verification_token@.len() == 36,
    {
        let t = trim(req.domain.as_str());
        if t.as_str().is_empty() {
            return Err(SesError::InvalidParameter("Domain must not be empty".to_owned()));
        }
        let verification_token = new_uuid();
        let ghost before = self.identities@;
        let ghost k = t@;
        self.identities.insert(t, ());
        assert(self.identities@.dom() =~= before.dom().insert(k));
        Ok(VerifyDomainIdentityResponse { verification_token })
    }

    /// Forgets an identity (trimmed); forgetting an unknown one is no error.
    pub fn delete_identity(&mut self, req: DeleteIdentityRequest) -> (r: Result<(), SesError>)
        requires
            old(self).wf(),
        ensures
            final(self).wf(),
            final(self).sent() == old(self).sent(),
            final(self).account() == old(self).account(),
            final(self).home_region() == old(self).home_region(),
            trim_ws(req.identity@).len() == 0 <==> r is Err,
            r matches Err(e) ==> invalid_parameter(e, "Identity must not be empty"@)
                && final(self).identities() == old(self).identities(),
            r is Ok ==> final(self).identities() == old(self).identities().remove(trim_ws(req.identity@)),
    {
        let t = trim(req.identity.as_str());
        if t.as_str().is_empty() {
            return Err(SesError::InvalidParameter("Identity must not be empty".to_owned()));
        }
        let ghost before = self.identities@;
        let _ = self.identities.remove(t.as_str());
        assert(self.identities@.dom() =~= before.dom().remove(t@));
        Ok(())
    }

    /// The identities, in ascending order, of the requested type (`EmailAddress`
    /// or `Domain`), at most `max_items` (100 by default) of them.
    pub fn list_identities(&self, req: ListIdentitiesRequest) -> (r: Result<ListIdentitiesResponse, SesError>)
        requires
            self.wf(),
        ensures
            r matches Ok(resp) && resp.next_token is None && views(resp.identities@) == take_at_most(
                filter_ids(self.identity_list(), opt_text(req.identity_type)),
                match req.max_items { Some(m) => m as nat, None => 100 },
            ),
    {
        let all = self.identities.key_list();
        let mut email_only = false;
        let mut domain_only = false;
        match &req.identity_type {
            Some(t) => {
                if str_eq(t.as_str(), "EmailAddress") {
                    email_only = true;
                } else if str_eq(t.as_str(), "Domain") {
                    domain_only = true;
                }
            },
            None => {},
        }
        let ghost kind = opt_text(req.identity_type);
        let ghost ids = self.identity_list();
        assert(views(all@) =~= ids);
        let mut list: Vec<String> = Vec::new();
        let mut i: usize = 0;
        while i < all.len()
            invariant
                ids == views(all@),
                i <= ids.len(),
                email_only ==> kind == Some("EmailAddress"@),
                domain_only ==> kind == Some("Domain"@) && kind != Some("EmailAddress"@),
                !email_only && !domain_only ==> forall|x: Seq<char>| kind_admits(kind, x),
                views(list@) == filter_ids(ids.subrange(0, i as int), kind),
            decreases ids.len() - i,
        {
            assert(ids.subrange(0, i + 1).drop_last() =~= ids.subrange(0, i as int));
            let has_at = contains_char(all[i].as_str(), '@');
            let keep = if email_only { has_at } else if domain_only { !has_at } else { true };
            assert(keep == kind_admits(kind, ids[i as int]));
            let ghost before = list@;
            if keep {
                list.push(all[i].clone());
                assert(views(list@) =~= views(before).push(ids[i as int]));
            }
            i = i + 1;
        }
        assert(ids.subrange(0, ids.len() as int) =~= ids);
        let max_items: usize = match req.max_items {
            Some(m) => m,
            None => 100,
        };
        if list.len() > max_items {
            list.truncate(max_items);
            assert(views(list@) =~= filter_ids(ids, kind).take(max_items as int));
        }
        Ok(ListIdentitiesResponse { identities: list, next_token: None })
    }

    /// The number of messages accepted.
    pub fn sent_count(&self) -> (n: usize)
        ensures
            n == self.sent().len(),
    {
        self.sent_emails.len()
    }

    /// One data point: now, with every accepted message as a delivery attempt.
    pub fn get_send_statistics(&self) -> (r: Result<GetSendStatisticsResponse, SesError>)
        ensures
            r matches Ok(resp) && resp.send_data_points@.len() == 1 && {
                let p = resp.send_data_points@[0];
                &&& p.delivery_attempts == if self.sent().len() <= i64::MAX { self.sent().len() as int } else { i64::MAX as int }
                &&& p.bounces == 0 && p.complaints == 0 && p.rejects == 0
            },
    {
        let n = self.sent_emails.len();
        let wide = n as u64;
        let attempts: i64 = if wide <= 9223372036854775807u64 { wide as i64 } else { 9223372036854775807i64 };
        let point = SendDataPoint {
            timestamp: now_rfc3339(),
            delivery_attempts: attempts,
            bounces: 0,
            complaints: 0,
            rejects: 0,
        };
        Ok(GetSendStatisticsResponse { send_data_points: vec![point] })
    }

    /// The verification state (`Success`) of each requested identity that is
    /// known; unknown ones are left out.
    pub fn get_identity_verification_attributes(
        &self,
        req: GetIdentityVerificationAttributesRequest,
    ) -> (r: Result<GetIdentityVerificationAttributesResponse, SesError>)
        requires
            self.wf(),
        ensures
            r matches Ok(resp) && {
                let m = resp.verification_attributes;
                &&& m.wf()
                &&& m@.dom() == views(req.identities@).to_set().intersect(self.identities())
                &&& forall|k: Seq<char>| #[trigger] m@.contains_key(k) ==> m@[k].verification_status@ == "Success"@
                    && m@[k].verification_token is None
            },
    {
        let mut map: Table<IdentityVerificationAttributes> = Table::new();
        let ghost ids = views(req.identities@);
        let mut i: usize = 0;
        while i < req.identities.len()
            invariant
                self.wf(),
                ids == views(req.identities@),
                i <= ids.len(),
                map.wf(),
                map@.dom() == ids.subrange(0, i as int).to_set().intersect(self.identities()),
                forall|k: Seq<char>| #[trigger] map@.contains_key(k) ==> map@[k].verification_status@ == "Success"@
                    && map@[k].verification_token is None,
            decreases ids.len() - i,
        {
            let id = &req.identities[i];
            let ghost before = map@;
            if self.identities.contains(id.as_str()) {
                map.insert(id.clone(), IdentityVerificationAttributes {
                    verification_status: "Success".to_owned(),
                    verification_token: None,
                });
            }
            i = i + 1;
            proof {
                assert(ids.subrange(0, i as int) =~= ids.subrange(0, i - 1).push(ids[i - 1]));
                ids.subrange(0, i - 1).lemma_push_to_set_commute(ids[i - 1]);
            }
            assert(map@.dom() =~= ids.subrange(0, i as int).to_set().intersect(self.identities()));
        }
        assert(ids.subrange(0, ids.len() as int) =~= ids);
        Ok(GetIdentityVerificationAttributesResponse { verification_attributes: map })
    }

    /// Copies of the messages accepted, oldest first.
    pub fn get_sent_emails(&self) -> (r: Vec<SentEmail>)
        ensures
            sent_views(r@) == self.sent(),
    {
        copy_sent(&self.sent_emails)
    }

    /// Forgets every identity and message.
    pub fn clear(&mut self)
        requires
            old(self).wf(),
        ensures
            final(self).wf(),
            final(self).identities() == Set::<Seq<char>>::empty(),
            final(self).sent() == Seq::<SentEmailView>::empty(),
            final(self).account() == old(self).account(),
            final(self).home_region() == old(self).home_region(),
    {
        self.identities.clear();
        self.sent_emails = Vec::new();
        assert(self.identities() =~= Set::<Seq<char>>::empty());
        assert(self.sent() =~= Seq::<SentEmailView>::empty());
    }

    /// Forgets every identity and message.
    pub fn reset(&mut self)
        requires
            old(self).wf(),
        ensures
            final(self).wf(),
            final(self).identities() == Set::<Seq<char>>::empty(),
            final(self).sent() == Seq::<SentEmailView>::empty(),
            final(self).account() == old(self).account(),
            final(self).home_region() == old(self).home_region(),
    {
        self.clear();
    }

    /// The identities (ascending) and messages, for saving.
    pub fn export_snapshot(&self) -> (snap: SesStateSnapshot)
        requires
            self.wf(),
        ensures
            views(snap.identities@) == self.identity_list(),
            sent_views(snap.sent_emails@) == self.sent(),
            snap.templates@.len() == 0,
    {
        let ids = self.identities.key_list();
        assert(views(ids@) =~= self.identity_list());
        SesStateSnapshot { identities: ids, sent_emails: copy_sent(&self.sent_emails), templates: Vec::new() }
    }

    /// Replaces the identities and messages with those of a snapshot.
    pub fn import_snapshot(&mut self, snapshot: SesStateSnapshot)
        requires
            old(self).wf(),
        ensures
            final(self).wf(),
            final(self).identities() == views(snapshot.identities@).to_set(),
            final(self).sent() == sent_views(snapshot.sent_emails@),
            final(self).account() == old(self).account(),
            final(self).home_region() == old(self).home_region(),
    {
        self.identities.clear();
        let ghost ids = views(snapshot.identities@);
        let mut i: usize = 0;
        while i < snapshot.identities.len()
            invariant
                ids == views(snapshot.identities@),
                i <= ids.len(),
                self.identities.wf(),
                self.identities@.dom() == ids.subrange(0, i as int).to_set(),
                self.account_id == old(self).account_id,
                self.region == old(self).region,
            decreases ids.len() - i,
        {
            self.identities.insert(snapshot.identities[i].clone(), ());
            i = i + 1;
            proof {
                assert(ids.subrange(0, i as int) =~= ids.subrange(0, i - 1).push(ids[i - 1]));
                ids.subrange(0, i - 1).lemma_push_to_set_commute(ids[i - 1]);
            }
            assert(self.identities@.dom() =~= ids.subrange(0, i as int).to_set());
        }
        assert(ids.subrange(0, ids.len() as int) =~= ids);
        self.sent_emails = snapshot.sent_emails;
    }

}

} // verus!
