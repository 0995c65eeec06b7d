//! Language-server messages: validation of the JSON-RPC envelope that a
//! browser sends, and the `Content-Length` framing spoken with the server.

use vstd::prelude::*;
use vstd::utf8::{decode_utf8, encode_utf8, valid_utf8};

use crate::text::{
    chars_of, parse_usize, parse_usize_spec, trim_bounds, trim_spec, all_digits,
    digits_value, is_digit, digit_value, first_non_ws_from, last_non_ws_before, ascii_ci_eq,
    ascii_ci_equal, ascii_ci_matches,
};

verus! {

/// Largest message body exchanged with the language server.
pub const MAX_LSP_MESSAGE_BYTES: usize = 1 << 20;

/// Largest header read before its blank line.
pub const MAX_LSP_HEADER_BYTES: usize = 8 << 10;

// ---------------------------------------------------------------------------
// JSON-RPC envelope
// ---------------------------------------------------------------------------

/// A JSON number as the JSON reader keeps it.
#[derive(Debug, Clone, PartialEq, Eq)]
pub enum JsonNumber {
    /// A non-negative integer.
    PosInt(u64),
    /// A negative integer.
    NegInt(i64),
    /// A number with a fraction or an exponent.
    Float,
}

/// A JSON value.
#[derive(Debug)]
pub enum JsonValue {
    Null,
    Bool(bool),
    Number(JsonNumber),
    Str(String),
    Array(Vec<JsonValue>),
    /// The members of an object, each key once.
    Object(Vec<(String, JsonValue)>),
}

/// Why a message from the browser is not forwarded to the language server.
#[derive(Debug, Clone, Copy, PartialEq, Eq)]
pub enum LspEnvelopeError {
    NotObject,
    WrongVersion,
    InvalidId,
    InvalidMethod,
    RequestWithResult,
    MissingId,
    MissingResult,
}

impl LspEnvelopeError {
    pub open spec fn message_spec(self) -> &'static str {
        match self {
            LspEnvelopeError::NotObject => "LSP message must be a JSON object",
            LspEnvelopeError::WrongVersion => "LSP message must use JSON-RPC 2.0",
            LspEnvelopeError::InvalidId => "LSP message id must be a string or integer",
            LspEnvelopeError::InvalidMethod => "LSP method must be a non-empty string",
            LspEnvelopeError::RequestWithResult => "LSP requests and notifications cannot contain a result or error",
            LspEnvelopeError::MissingId => "LSP response must contain an id",
            LspEnvelopeError::MissingResult => "LSP response must contain a result or error",
        }
    }

    /// The text reported to the browser.
    pub fn message(&self) -> (r: &'static str)
        ensures
            r == self.message_spec(),
    {
        match self {
            LspEnvelopeError::NotObject => "LSP message must be a JSON object",
            LspEnvelopeError::WrongVersion => "LSP message must use JSON-RPC 2.0",
            LspEnvelopeError::InvalidId => "LSP message id must be a string or integer",
            LspEnvelopeError::InvalidMethod => "LSP method must be a non-empty string",
            LspEnvelopeError::RequestWithResult => "LSP requests and notifications cannot contain a result or error",
            LspEnvelopeError::MissingId => "LSP response must contain an id",
            LspEnvelopeError::MissingResult => "LSP response must contain a result or error",
        }
    }
}

/// The value stored under `key` in the members of an object.
pub open spec fn member(entries: Seq<(String, JsonValue)>, key: Seq<char>) -> Option<JsonValue>
    decreases entries.len(),
{
    if entries.len() == 0 {
        None
    } else if entries[0].0@ == key {
        Some(entries[0].1)
    } else {
        member(entries.drop_first(), key)
    }
}

/// An id is a string or an integer.
pub open spec fn id_is_valid(id: JsonValue) -> bool {
    match id {
        JsonValue::Str(_) => true,
        JsonValue::Number(JsonNumber::PosInt(_)) => true,
        JsonValue::Number(JsonNumber::NegInt(_)) => true,
        _ => false,
    }
}

pub open spec fn method_is_valid(method: JsonValue) -> bool {
    match method {
        JsonValue::Str(s) => s@.len() > 0,
        _ => false,
    }
}

pub open spec fn version_is_valid(v: Option<JsonValue>) -> bool {
    match v {
        Some(JsonValue::Str(s)) => s@ == "2.0"@,
        _ => false,
    }
}

/// The rules of a JSON-RPC 2.0 request, notification or response.
pub open spec fn validate_spec(message: JsonValue) -> Result<(), LspEnvelopeError> {
    match message {
        JsonValue::Object(es) => {
            let entries = es@;
            if !version_is_valid(member(entries, "jsonrpc"@)) {
                Err(LspEnvelopeError::WrongVersion)
            } else if member(entries, "id"@) is Some && !id_is_valid(
                member(entries, "id"@)->Some_0,
            ) {
                Err(LspEnvelopeError::InvalidId)
            } else if member(entries, "method"@) is Some {
                if !method_is_valid(member(entries, "method"@)->Some_0) {
                    Err(LspEnvelopeError::InvalidMethod)
                } else if member(entries, "result"@) is Some || member(entries, "error"@) is Some {
                    Err(LspEnvelopeError::RequestWithResult)
                } else {
                    Ok(())
                }
            } else if member(entries, "id"@) is None {
                Err(LspEnvelopeError::MissingId)
            } else if member(entries, "result"@) is None && member(entries, "error"@) is None {
                Err(LspEnvelopeError::MissingResult)
            } else {
                Ok(())
            }
        },
        _ => Err(LspEnvelopeError::NotObject),
    }
}

/// An id is refused exactly when the version is right and the id is
/// present but neither a string nor an integer; a string id, and an integer
/// id of any value (zero and negative ones included), pass.
pub proof fn ids_are_refused_only_when_not_string_or_integer(es: Vec<(String, JsonValue)>)
    ensures
        (validate_spec(JsonValue::Object(es)) == Err::<(), LspEnvelopeError>(
            LspEnvelopeError::InvalidId,
        )) <==> ({
            &&& member(es@, "jsonrpc"@) matches Some(JsonValue::Str(v)) && v@ == "2.0"@
            &&& member(es@, "id"@) matches Some(id) && !(id matches JsonValue::Str(_)
                || id matches JsonValue::Number(JsonNumber::PosInt(_))
                || id matches JsonValue::Number(JsonNumber::NegInt(_)))
        }),
{
}

/// A JSON-RPC 2.0 request (or notification) whose id, if any, is a string
/// or an integer of any value, whose method is a non-empty string, and
/// which carries no result or error, is accepted.
pub proof fn well_formed_requests_are_accepted(es: Vec<(String, JsonValue)>)
    requires
        member(es@, "jsonrpc"@) matches Some(JsonValue::Str(v)) && v@ == "2.0"@,
        member(es@, "id"@) matches Some(id) ==> (id matches JsonValue::Str(_)
            || id matches JsonValue::Number(JsonNumber::PosInt(_))
            || id matches JsonValue::Number(JsonNumber::NegInt(_))),
        member(es@, "method"@) matches Some(JsonValue::Str(m)) && m@.len() > 0,
        member(es@, "result"@) is None,
        member(es@, "error"@) is None,
    ensures
        validate_spec(JsonValue::Object(es)) == Ok::<(), LspEnvelopeError>(()),
{
}

/// A JSON-RPC 2.0 response, without a method, whose id is a string or an
/// integer of any value and which carries a result or an error, is
/// accepted.
pub proof fn well_formed_responses_are_accepted(es: Vec<(String, JsonValue)>)
    requires
        member(es@, "jsonrpc"@) matches Some(JsonValue::Str(v)) && v@ == "2.0"@,
        member(es@, "id"@) matches Some(id) && (id matches JsonValue::Str(_)
            || id matches JsonValue::Number(JsonNumber::PosInt(_))
            || id matches JsonValue::Number(JsonNumber::NegInt(_))),
        member(es@, "method"@) is None,
        member(es@, "result"@) is Some || member(es@, "error"@) is Some,
    ensures
        validate_spec(JsonValue::Object(es)) == Ok::<(), LspEnvelopeError>(()),
{
}

fn lookup<'a>(entries: &'a Vec<(String, JsonValue)>, key: &str) -> (r: Option<&'a JsonValue>)
    ensures
        r is Some <==> member(entries@, key@) is Some,
        r matches Some(v) ==> member(entries@, key@) == Some(*v),
{
    let k = key.to_owned();
    let mut i: usize = 0;
    assert(entries@.skip(0) =~= entries@);
    while i < entries.len()
        invariant
            i <= entries@.len(),
            k@ == key@,
            member(entries@, key@) == member(entries@.skip(i as int), key@),
        decreases entries@.len() - i,
    {
        assert(entries@.skip(i as int).drop_first() =~= entries@.skip(i + 1));
        if entries[i].0 == k {
            return Some(&entries[i].1);
        }
        i = i + 1;
    }
    None
}

/// Validate the JSON-RPC envelope before forwarding a browser message to the
/// per-connection language server.
pub fn validate_lsp_message(message: &JsonValue) -> (r: Result<(), LspEnvelopeError>)
    ensures
        r == validate_spec(*message),
{
    let entries = match message {
        JsonValue::Object(es) => es,
        _ => {
            return Err(LspEnvelopeError::NotObject);
        },
    };
    let version_ok = match lookup(entries, "jsonrpc") {
        Some(JsonValue::Str(s)) => {
            let two = "2.0".to_owned();
            *s == two
        },
        _ => false,
    };
    if !version_ok {
        return Err(LspEnvelopeError::WrongVersion);
    }
    match lookup(entries, "id") {
        Some(id) => {
            let valid = match id {
                JsonValue::Str(_) => true,
                JsonValue::Number(JsonNumber::PosInt(_)) => true,
                JsonValue::Number(JsonNumber::NegInt(_)) => true,
                _ => false,
            };
            if !valid {
                return Err(LspEnvelopeError::InvalidId);
            }
        },
        None => {},
    }
    let has_result = lookup(entries, "result").is_some();
    let has_error = lookup(entries, "error").is_some();
    match lookup(entries, "method") {
        Some(method) => {
            let valid = match method {
                JsonValue::Str(s) => !s.as_str().is_empty(),
                _ => false,
            };
            if !valid {
                return Err(LspEnvelopeError::InvalidMethod);
            }
            if has_result || has_error {
                return Err(LspEnvelopeError::RequestWithResult);
            }
            return Ok(());
        },
        None => {},
    }
    if lookup(entries, "id").is_none() {
        return Err(LspEnvelopeError::MissingId);
    }
    if !has_result && !has_error {
        return Err(LspEnvelopeError::MissingResult);
    }
    Ok(())
}


// ---------------------------------------------------------------------------
// Framing
// ---------------------------------------------------------------------------

/// Why a frame could not be written or read.
#[derive(Debug, Clone, Copy, PartialEq, Eq)]
pub enum LspFrameError {
    /// The input ended inside a header.
    TruncatedHeader,
    /// The header grew beyond `MAX_LSP_HEADER_BYTES` without ending.
    HeaderTooLarge,
    /// The header is not UTF-8.
    InvalidHeaderEncoding,
    /// No header line names the content length.
    MissingLength,
    /// The content length is not a decimal number.
    InvalidLength,
    /// The message body is longer than `MAX_LSP_MESSAGE_BYTES`.
    MessageTooLarge,
    /// The input ended inside the message body.
    TruncatedContent,
    /// The message body is not UTF-8.
    InvalidContentEncoding,
}

/// The header line name `content-length`, compared ignoring ASCII case.
pub open spec fn length_name() -> Seq<char> {
    seq!['c', 'o', 'n', 't', 'e', 'n', 't', '-', 'l', 'e', 'n', 'g', 't', 'h']
}

pub open spec fn is_length_name(name: Seq<char>) -> bool {
    ascii_ci_equal(name, length_name())
}

/// The first `\r\n` at or after `i`, or the length of `s`.
pub open spec fn find_crlf(s: Seq<char>, i: int) -> int
    decreases s.len() - i,
{
    if i + 1 >= s.len() {
        s.len() as int
    } else if s[i] == '\r' && s[i + 1] == '\n' {
        i
    } else {
        find_crlf(s, i + 1)
    }
}

/// The first `:` of `s`, or its length.
pub open spec fn find_colon(s: Seq<char>, i: int) -> int
    decreases s.len() - i,
{
    if i >= s.len() {
        s.len() as int
    } else if s[i] == ':' {
        i
    } else {
        find_colon(s, i + 1)
    }
}

pub proof fn lemma_find_crlf_bounds(s: Seq<char>, i: int)
    requires
        0 <= i <= s.len(),
    ensures
        i <= find_crlf(s, i) <= s.len(),
        find_crlf(s, i) < s.len() ==> find_crlf(s, i) + 2 <= s.len() && s[find_crlf(s, i)] == '\r'
            && s[find_crlf(s, i) + 1] == '\n',
    decreases s.len() - i,
{
    if i + 1 < s.len() && !(s[i] == '\r' && s[i + 1] == '\n') {
        lemma_find_crlf_bounds(s, i + 1);
    }
}

/// The text after the colon of the first header line, from line start
/// `start` on, whose name is `content-length`: the lines are the pieces
/// between `\r\n` separators, and a line without a colon is skipped.
pub open spec fn length_value(s: Seq<char>, start: int) -> Option<Seq<char>>
    decreases s.len() - start,
{
    if start < 0 || start > s.len() {
        None
    } else {
        let e = find_crlf(s, start);
        let line = s.subrange(start, e);
        let c = find_colon(line, 0);
        proof {
            lemma_find_crlf_bounds(s, start);
        }
        if c < line.len() && is_length_name(line.subrange(0, c)) {
            Some(line.subrange(c + 1, line.len() as int))
        } else if e >= s.len() {
            None
        } else {
            length_value(s, e + 2)
        }
    }
}

/// The content length a complete header announces.
pub open spec fn content_length_spec(header: Seq<u8>) -> Result<usize, LspFrameError> {
    if !valid_utf8(header) {
        Err(LspFrameError::InvalidHeaderEncoding)
    } else {
        match length_value(decode_utf8(header), 0) {
            None => Err(LspFrameError::MissingLength),
            Some(v) => match parse_usize_spec(trim_spec(v)) {
                None => Err(LspFrameError::InvalidLength),
                Some(n) => if n > MAX_LSP_MESSAGE_BYTES {
                    Err(LspFrameError::MessageTooLarge)
                } else {
                    Ok(n)
                },
            },
        }
    }
}

/// The header has just ended: its last four bytes are `\r\n\r\n`.
pub open spec fn ends_header(h: Seq<u8>) -> bool {
    h.len() >= 4 && h[h.len() - 4] == 13 && h[h.len() - 3] == 10 && h[h.len() - 2] == 13 && h[
        h.len() - 1] == 10
}

/// What one more header byte leads to.
#[derive(Debug, Clone, Copy, PartialEq, Eq)]
pub enum HeaderStep {
    /// The header goes on.
    Continue,
    /// The header is complete and announces this many content bytes.
    Complete(usize),
    Failed(LspFrameError),
}

pub open spec fn header_step_spec(h: Seq<u8>) -> HeaderStep {
    if ends_header(h) {
        match content_length_spec(h) {
            Ok(n) => HeaderStep::Complete(n),
            Err(e) => HeaderStep::Failed(e),
        }
    } else if h.len() > MAX_LSP_HEADER_BYTES {
        HeaderStep::Failed(LspFrameError::HeaderTooLarge)
    } else {
        HeaderStep::Continue
    }
}

/// Calls `String::from_utf8` on a copy of the bytes: it succeeds exactly on
/// valid UTF-8 and then holds the decoded characters.
#[verifier::external_body]
pub(crate) fn utf8_decode(bytes: &[u8]) -> (r: Option<String>)
    ensures
        r is Some <==> valid_utf8(bytes@),
        r matches Some(s) ==> s@ == decode_utf8(bytes@),
{
    String::from_utf8(bytes.to_vec()).ok()
}

/// Whether `cs[lo..hi]` is the name `content-length` in any ASCII case.
fn is_length_name_at(cs: &Vec<char>, lo: usize, hi: usize) -> (r: bool)
    requires
        lo <= hi <= cs@.len(),
    ensures
        r == is_length_name(cs@.subrange(lo as int, hi as int)),
{
    let name: Vec<char> = vec!['c', 'o', 'n', 't', 'e', 'n', 't', '-', 'l', 'e', 'n', 'g', 't', 'h'];
    assert(name@ =~= length_name());
    ascii_ci_matches(cs, lo, hi, &name)
}

/// The content length that a complete header announces.
pub fn content_length(header: &Vec<u8>) -> (r: Result<usize, LspFrameError>)
    ensures
        r == content_length_spec(header@),
{
    let text = match utf8_decode(header.as_slice()) {
        Some(t) => t,
        None => {
            return Err(LspFrameError::InvalidHeaderEncoding);
        },
    };
    let cs = chars_of(text.as_str());
    let ghost s = cs@;
    let mut start: usize = 0;
    while start <= cs.len()
        invariant
            s == cs@,
            s == decode_utf8(header@),
            valid_utf8(header@),
            start <= s.len(),
            length_value(s, 0) == length_value(s, start as int),
        decreases s.len() - start,
    {
        // The end of the line: the next `\r\n`, or the end of the header.
        let mut e = start;
        while e < cs.len() && e + 1 < cs.len() && !(cs[e] == '\r' && cs[e + 1] == '\n')
            invariant
                start <= e <= s.len(),
                s == cs@,
                find_crlf(s, start as int) == find_crlf(s, e as int),
            decreases s.len() - e,
        {
            e = e + 1;
        }
        if e >= cs.len() || e + 1 >= cs.len() {
            e = cs.len();
        }
        assert(e == find_crlf(s, start as int));
        proof {
            lemma_find_crlf_bounds(s, start as int);
        }
        let ghost line = s.subrange(start as int, e as int);
        // The first colon of the line.
        let mut c = start;
        while c < e && cs[c] != ':'
            invariant
                start <= c <= e,
                e <= s.len(),
                s == cs@,
                line == s.subrange(start as int, e as int),
                find_colon(line, 0) == find_colon(line, c - start),
            decreases e - c,
        {
            c = c + 1;
        }
        assert(find_colon(line, 0) == c - start);
        if c < e && is_length_name_at(&cs, start, c) {
            assert(line.subrange(0, c - start) =~= s.subrange(start as int, c as int));
            let (a, b) = trim_bounds(&cs, c + 1, e);
            assert(line.subrange(c - start + 1, line.len() as int) =~= s.subrange(c + 1, e as int));
            return match parse_usize(&cs, a, b) {
                None => Err(LspFrameError::InvalidLength),
                Some(n) => {
                    if n > MAX_LSP_MESSAGE_BYTES {
                        Err(LspFrameError::MessageTooLarge)
                    } else {
                        Ok(n)
                    }
                },
            };
        }
        proof {
            if c < e {
                assert(line.subrange(0, c - start) =~= s.subrange(start as int, c as int));
            }
        }
        if e >= cs.len() {
            return Err(LspFrameError::MissingLength);
        }
        start = e + 2;
    }
    Err(LspFrameError::MissingLength)
}

/// Adds one byte to a header being read and says whether the header goes
/// on, is complete, or cannot be a valid header.
pub fn header_push(header: &mut Vec<u8>, byte: u8) -> (r: HeaderStep)
    ensures
        final(header)@ == old(header)@.push(byte),
        r == header_step_spec(final(header)@),
{
    header.push(byte);
    let n = header.len();
    if n >= 4 && header[n - 4] == 13 && header[n - 3] == 10 && header[n - 2] == 13 && header[n - 1]
        == 10 {
        match content_length(header) {
            Ok(len) => HeaderStep::Complete(len),
            Err(e) => HeaderStep::Failed(e),
        }
    } else if n > MAX_LSP_HEADER_BYTES {
        HeaderStep::Failed(LspFrameError::HeaderTooLarge)
    } else {
        HeaderStep::Continue
    }
}

/// Decodes a complete message body.
pub fn decode_content(content: &Vec<u8>) -> (r: Result<String, LspFrameError>)
    ensures
        r is Ok <==> valid_utf8(content@),
        r matches Ok(s) ==> s@ == decode_utf8(content@),
        r matches Err(e) ==> e == LspFrameError::InvalidContentEncoding,
{
    match utf8_decode(content.as_slice()) {
        Some(s) => Ok(s),
        None => Err(LspFrameError::InvalidContentEncoding),
    }
}

/// How the bytes of an input stream start a header, `k` bytes in.
pub enum HeaderScan {
    /// The input is empty.
    Clean,
    /// The input ends inside the header.
    Truncated,
    /// The header grows beyond the limit.
    TooLarge,
    /// The header is complete after this many bytes.
    Complete(nat),
}

pub open spec fn header_scan(d: Seq<u8>, k: nat) -> HeaderScan
    decreases d.len() - k,
{
    if k >= d.len() {
        if k == 0 {
            HeaderScan::Clean
        } else {
            HeaderScan::Truncated
        }
    } else if ends_header(d.take(k + 1 as int)) {
        HeaderScan::Complete(k + 1)
    } else if k + 1 > MAX_LSP_HEADER_BYTES {
        HeaderScan::TooLarge
    } else {
        header_scan(d, k + 1)
    }
}

/// What reading one frame from the input `d` gives.
pub open spec fn read_frame_spec(d: Seq<u8>) -> Result<Option<Seq<char>>, LspFrameError> {
    match header_scan(d, 0) {
        HeaderScan::Clean => Ok(None),
        HeaderScan::Truncated => Err(LspFrameError::TruncatedHeader),
        HeaderScan::TooLarge => Err(LspFrameError::HeaderTooLarge),
        HeaderScan::Complete(h) => match content_length_spec(d.take(h as int)) {
            Err(e) => Err(e),
            Ok(n) => if h + n > d.len() {
                Err(LspFrameError::TruncatedContent)
            } else if valid_utf8(d.subrange(h as int, h + n)) {
                Ok(Some(decode_utf8(d.subrange(h as int, h + n))))
            } else {
                Err(LspFrameError::InvalidContentEncoding)
            },
        },
    }
}

/// How many bytes a successfully read frame takes.
pub open spec fn frame_len_spec(d: Seq<u8>) -> nat {
    match header_scan(d, 0) {
        HeaderScan::Complete(h) => match content_length_spec(d.take(h as int)) {
            Ok(n) => h + n as nat,
            Err(_) => 0,
        },
        _ => 0,
    }
}

/// How many bytes reading one frame from the input `d` takes, whatever the
/// outcome: a header that grows too large stops one byte past the limit, a
/// header that names a bad or too large length stops right after the
/// header, and an input that ends early is used up.
pub open spec fn frame_consumed_spec(d: Seq<u8>) -> nat {
    match header_scan(d, 0) {
        HeaderScan::Clean => 0,
        HeaderScan::Truncated => d.len(),
        HeaderScan::TooLarge => (MAX_LSP_HEADER_BYTES + 1) as nat,
        HeaderScan::Complete(h) => match content_length_spec(d.take(h as int)) {
            Err(_) => h,
            Ok(n) => if h + n > d.len() {
                d.len()
            } else {
                h + n as nat
            },
        },
    }
}

/// Bytes read front to back.
pub struct ByteReader {
    data: Vec<u8>,
    pos: usize,
}

impl ByteReader {
    pub closed spec fn remaining(&self) -> Seq<u8> {
        self.data@.skip(self.pos as int)
    }

    pub closed spec fn wf(&self) -> bool {
        self.pos <= self.data@.len()
    }

    pub fn new(data: Vec<u8>) -> (r: Self)
        ensures
            r.wf(),
            r.remaining() == data@,
    {
        let r = ByteReader { data, pos: 0 };
        assert(r.data@.skip(0) =~= r.data@);
        r
    }

    /// The next byte, if any is left.
    pub fn read_byte(&mut self) -> (r: Option<u8>)
        requires
            old(self).wf(),
        ensures
            final(self).wf(),
            old(self).remaining().len() == 0 ==> r is None && final(self).remaining()
                == old(self).remaining(),
            old(self).remaining().len() > 0 ==> r == Some(old(self).remaining()[0])
                && final(self).remaining() == old(self).remaining().drop_first(),
    {
        if self.pos < self.data.len() {
            let b = self.data[self.pos];
            self.pos = self.pos + 1;
            assert(self.remaining() =~= old(self).remaining().drop_first());
            Some(b)
        } else {
            None
        }
    }

    /// The next `n` bytes, if that many are left; otherwise the input is used up.
    pub fn read_exact(&mut self, n: usize) -> (r: Option<Vec<u8>>)
        requires
            old(self).wf(),
        ensures
            final(self).wf(),
            n <= old(self).remaining().len() ==> (r matches Some(v) && v@ == old(
                self,
            ).remaining().take(n as int)),
            n <= old(self).remaining().len() ==> final(self).remaining() == old(
                self,
            ).remaining().skip(n as int),
            n > old(self).remaining().len() ==> r is None && final(self).remaining().len() == 0,
    {
        if n <= self.data.len() - self.pos {
            let mut v: Vec<u8> = Vec::new();
            let end = self.pos + n;
            let mut i = self.pos;
            while i < end
                invariant
                    self.pos <= i <= end,
                    end == self.pos + n,
                    end <= self.data@.len(),
                    v@ == self.data@.subrange(self.pos as int, i as int),
                decreases end - i,
            {
                v.push(self.data[i]);
                i = i + 1;
                assert(v@ =~= self.data@.subrange(self.pos as int, i as int));
            }
            assert(v@ =~= old(self).remaining().take(n as int));
            self.pos = end;
            assert(self.remaining() =~= old(self).remaining().skip(n as int));
            Some(v)
        } else {
            self.pos = self.data.len();
            assert(self.remaining() =~= Seq::<u8>::empty());
            None
        }
    }
}

/// Reads one frame: a header ending in a blank line that names the content
/// length, then that many bytes of UTF-8. `Ok(None)` means the input ended
/// before the frame began.
pub fn read_lsp_message(reader: &mut ByteReader) -> (r: Result<Option<String>, LspFrameError>)
    requires
        old(reader).wf(),
    ensures
        final(reader).wf(),
        match r {
            Ok(Some(m)) => read_frame_spec(old(reader).remaining()) == Ok::<
                Option<Seq<char>>,
                LspFrameError,
            >(Some(m@)) && final(reader).remaining() == old(reader).remaining().skip(
                frame_len_spec(old(reader).remaining()) as int,
            ),
            Ok(None) => read_frame_spec(old(reader).remaining()) == Ok::<
                Option<Seq<char>>,
                LspFrameError,
            >(None),
            Err(e) => read_frame_spec(old(reader).remaining()) == Err::<
                Option<Seq<char>>,
                LspFrameError,
            >(e),
        },
        final(reader).remaining() == old(reader).remaining().skip(
            frame_consumed_spec(old(reader).remaining()) as int,
        ),
{
    let ghost d = reader.remaining();
    let mut header: Vec<u8> = Vec::new();
    loop
        invariant
            reader.wf(),
            d == old(reader).remaining(),
            header@.len() <= d.len(),
            header@.len() <= MAX_LSP_HEADER_BYTES,
            header@ == d.take(header@.len() as int),
            reader.remaining() == d.skip(header@.len() as int),
            header_scan(d, 0) == header_scan(d, header@.len() as nat),
        decreases d.len() - header@.len(),
    {
        let k = header.len();
        match reader.read_byte() {
            None => {
                assert(d.len() == k);
                assert(d.skip(k as int) =~= d.skip(d.len() as int));
                if k == 0 {
                    return Ok(None);
                } else {
                    return Err(LspFrameError::TruncatedHeader);
                }
            },
            Some(b) => {
                assert(d[k as int] == b);
                let step = header_push(&mut header, b);
                assert(header@ =~= d.take(k + 1));
                assert(reader.remaining() =~= d.skip(k + 1));
                match step {
                    HeaderStep::Continue => {},
                    HeaderStep::Failed(e) => {
                        return Err(e);
                    },
                    HeaderStep::Complete(n) => {
                        let content = match reader.read_exact(n) {
                            Some(c) => c,
                            None => {
                                assert(reader.remaining() =~= d.skip(d.len() as int));
                                return Err(LspFrameError::TruncatedContent);
                            },
                        };
                        assert(content@ =~= d.subrange(k + 1, k + 1 + n));
                        assert(reader.remaining() =~= d.skip(k + 1 + n));
                        return match decode_content(&content) {
                            Ok(m) => Ok(Some(m)),
                            Err(e) => Err(e),
                        };
                    },
                }
            },
        }
    }
}

/// The digit character for `d < 10`.
pub open spec fn digit_char(d: nat) -> char {
    (48 + d) as char
}

/// The decimal representation of `n`, without sign or leading zeros.
pub open spec fn dec(n: nat) -> Seq<char>
    decreases n,
{
    if n < 10 {
        seq![digit_char(n)]
    } else {
        dec(n / 10).push(digit_char(n % 10))
    }
}

/// Appends the decimal digits of `n`.
pub fn push_decimal(out: &mut Vec<char>, n: usize)
    ensures
        final(out)@ == old(out)@ + dec(n as nat),
    decreases n,
{
    if n >= 10 {
        push_decimal(out, n / 10);
    }
    let d = (n % 10) as u8;
    out.push((48u8 + d) as char);
    assert(out@ =~= old(out)@ + dec(n as nat));
}

/// The characters of the header that announces `n` content bytes.
pub open spec fn header_chars(n: nat) -> Seq<char> {
    seq!['C', 'o', 'n', 't', 'e', 'n', 't', '-', 'L', 'e', 'n', 'g', 't', 'h', ':', ' '] + dec(n)
        + seq!['\r', '\n', '\r', '\n']
}

/// The frame that carries `message`: its header, then its UTF-8 bytes.
pub open spec fn frame_spec(message: Seq<char>) -> Seq<u8> {
    encode_utf8(header_chars(encode_utf8(message).len())) + encode_utf8(message)
}

/// Appends the frame that carries `message`; a message longer than
/// `MAX_LSP_MESSAGE_BYTES` is refused and nothing is written.
pub fn write_lsp_message(writer: &mut Vec<u8>, message: &str) -> (r: Result<(), LspFrameError>)
    ensures
        encode_utf8(message@).len() > MAX_LSP_MESSAGE_BYTES ==> r == Err::<(), LspFrameError>(
            LspFrameError::MessageTooLarge,
        ) && final(writer)@ == old(writer)@,
        encode_utf8(message@).len() <= MAX_LSP_MESSAGE_BYTES ==> r is Ok && final(writer)@ == old(
            writer,
        )@ + frame_spec(message@),
{
    let content = message.as_bytes();
    let len = content.len();
    if len > MAX_LSP_MESSAGE_BYTES {
        return Err(LspFrameError::MessageTooLarge);
    }
    let mut hc: Vec<char> = vec!['C', 'o', 'n', 't', 'e', 'n', 't', '-', 'L', 'e', 'n', 'g', 't', 'h', ':', ' '];
    push_decimal(&mut hc, len);
    hc.push('\r');
    hc.push('\n');
    hc.push('\r');
    hc.push('\n');
    assert(hc@ =~= header_chars(len as nat));
    proof {
        lemma_header_chars_ascii(len as nat);
        vstd::utf8::is_ascii_chars_encode_utf8(hc@);
    }
    let ghost start = writer@;
    let mut i: usize = 0;
    while i < hc.len()
        invariant
            i <= hc@.len(),
            hc@ == header_chars(len as nat),
            hc@.len() == encode_utf8(hc@).len(),
            forall|j: int| 0 <= j < hc@.len() ==> hc@[j] as u8 == #[trigger] encode_utf8(hc@)[j],
            writer@ == start + encode_utf8(hc@).take(i as int),
        decreases hc@.len() - i,
    {
        let c = hc[i];
        writer.push(c as u8);
        i = i + 1;
        assert(writer@ =~= start + encode_utf8(hc@).take(i as int));
    }
    assert(encode_utf8(hc@).take(i as int) =~= encode_utf8(hc@));
    let ghost mid = writer@;
    let mut j: usize = 0;
    while j < len
        invariant
            j <= len,
            len == content@.len(),
            content@ == encode_utf8(message@),
            writer@ == mid + content@.take(j as int),
        decreases len - j,
    {
        writer.push(content[j]);
        j = j + 1;
        assert(writer@ =~= mid + content@.take(j as int));
    }
    assert(content@.take(len as int) =~= content@);
    assert(writer@ =~= old(writer)@ + frame_spec(message@));
    Ok(())
}

proof fn lemma_digit_char(d: nat)
    requires
        d < 10,
    ensures
        is_digit(digit_char(d)),
        digit_value(digit_char(d)) == d,
{
    assert(digit_char(d) as u32 == 48 + d);
}

proof fn lemma_dec_digits(n: nat)
    ensures
        dec(n).len() >= 1,
        all_digits(dec(n)),
        digits_value(dec(n)) == n,
    decreases n,
{
    lemma_digit_char(n % 10);
    if n >= 10 {
        lemma_dec_digits(n / 10);
        let d = dec(n);
        assert(d.drop_last() =~= dec(n / 10));
        assert(d.last() == digit_char(n % 10));
        assert(digits_value(d) == digits_value(dec(n / 10)) * 10 + digit_value(d.last()));
        assert(n == (n / 10) * 10 + n % 10);
        assert(all_digits(d)) by {
            assert forall|i: int| 0 <= i < d.len() implies is_digit(#[trigger] d[i]) by {
                if i < d.len() - 1 {
                    assert(d[i] == dec(n / 10)[i]);
                }
            }
        }
    } else {
        assert(dec(n).drop_last() =~= Seq::<char>::empty());
        assert(dec(n).last() == digit_char(n));
        assert(digits_value(dec(n)) == digits_value(Seq::<char>::empty()) * 10 + digit_value(
            digit_char(n),
        ));
    }
}

proof fn lemma_header_chars_ascii(n: nat)
    ensures
        vstd::utf8::is_ascii_chars(header_chars(n)),
{
    lemma_dec_digits(n);
    let h = header_chars(n);
    assert forall|i: int| 0 <= i < h.len() implies (#[trigger] h[i] as nat) < 128 by {
        let p = 16 + dec(n).len();
        if 16 <= i < p {
            assert(h[i] == dec(n)[i - 16]);
            assert(is_digit(dec(n)[i - 16]));
        }
    }
}

pub open spec fn pow10(k: nat) -> nat
    decreases k,
{
    if k == 0 {
        1
    } else {
        10 * pow10((k - 1) as nat)
    }
}

proof fn lemma_dec_len(n: nat, k: nat)
    requires
        k >= 1,
        n < pow10(k),
    ensures
        dec(n).len() <= k,
    decreases k,
{
    if n >= 10 {
        assert(k >= 2) by {
            if k == 1 {
                assert(pow10(1) == 10 * pow10(0));
            }
        }
        assert(pow10(k) == 10 * pow10((k - 1) as nat));
        lemma_dec_len(n / 10, (k - 1) as nat);
    }
}

proof fn lemma_find_crlf_at(s: Seq<char>, i: int, p: int)
    requires
        0 <= i <= p,
        p + 1 < s.len(),
        s[p] == '\r',
        s[p + 1] == '\n',
        forall|j: int| i <= j < p ==> #[trigger] s[j] != '\r',
    ensures
        find_crlf(s, i) == p,
    decreases p - i,
{
    if i < p {
        lemma_find_crlf_at(s, i + 1, p);
    }
}

proof fn lemma_find_colon_at(s: Seq<char>, i: int, p: int)
    requires
        0 <= i <= p < s.len(),
        s[p] == ':',
        forall|j: int| i <= j < p ==> #[trigger] s[j] != ':',
    ensures
        find_colon(s, i) == p,
    decreases p - i,
{
    if i < p {
        lemma_find_colon_at(s, i + 1, p);
    }
}

proof fn lemma_header_scan_completes(d: Seq<u8>, k: nat, len: nat)
    requires
        k < len <= d.len(),
        len <= MAX_LSP_HEADER_BYTES,
        ends_header(d.take(len as int)),
        forall|j: nat| k < j < len ==> !ends_header(#[trigger] d.take(j as int)),
    ensures
        header_scan(d, k) == HeaderScan::Complete(len),
    decreases len - k,
{
    if k + 1 < len {
        assert(!ends_header(d.take(k + 1 as int)));
        lemma_header_scan_completes(d, k + 1, len);
    }
}

/// The header that announces `n` content bytes names `n` as its length.
proof fn lemma_header_announces(n: nat)
    requires
        n <= MAX_LSP_MESSAGE_BYTES,
    ensures
        content_length_spec(encode_utf8(header_chars(n))) == Ok::<usize, LspFrameError>(n as usize),
{
    let hc = header_chars(n);
    let dd = dec(n);
    lemma_dec_digits(n);
    let p: int = 16 + dd.len() as int;
    vstd::utf8::encode_utf8_valid_utf8(hc);
    vstd::utf8::encode_utf8_decode_utf8(hc);
    assert forall|j: int| 0 <= j < p implies #[trigger] hc[j] != '\r' && hc[j] != '\n' by {
        if j >= 16 {
            assert(hc[j] == dd[j - 16]);
            assert(is_digit(dd[j - 16]));
        }
    }
    lemma_find_crlf_at(hc, 0, p);
    let line = hc.subrange(0, p);
    assert forall|j: int| 0 <= j < 14 implies #[trigger] line[j] != ':' by {}
    lemma_find_colon_at(line, 0, 14);
    let name = line.subrange(0, 14);
    assert(is_length_name(name)) by {
        assert forall|i: int| 0 <= i < 14 implies ascii_ci_eq(#[trigger] name[i], length_name()[i]) by {
            assert(name[i] == hc[i]);
        }
    }
    let v = line.subrange(15, p);
    assert(length_value(hc, 0) == Some(v));
    assert(v[0] == ' ');
    assert(v.drop_first() =~= dd);
    assert forall|j: int| 1 <= j < v.len() implies is_digit(#[trigger] v[j]) by {
        assert(v[j] == dd[j - 1]);
    }
    assert(first_non_ws_from(v, 1) == 1);
    assert(first_non_ws_from(v, 0) == 1);
    assert(last_non_ws_before(v, 1, v.len() as int) == v.len());
    assert(trim_spec(v) =~= dd);
    assert(is_digit(dd[0]));
    assert(parse_usize_spec(dd) == Some(n as usize));
}

/// A frame written for a message reads back as that message and uses up
/// exactly the frame, whatever follows it.
pub proof fn lemma_frame_round_trip(message: Seq<char>, rest: Seq<u8>)
    requires
        encode_utf8(message).len() <= MAX_LSP_MESSAGE_BYTES,
    ensures
        read_frame_spec(frame_spec(message) + rest) == Ok::<Option<Seq<char>>, LspFrameError>(
            Some(message),
        ),
        frame_len_spec(frame_spec(message) + rest) == frame_spec(message).len(),
{
    let mb = encode_utf8(message);
    let n = mb.len();
    let hc = header_chars(n);
    let hb = encode_utf8(hc);
    let d = frame_spec(message) + rest;
    lemma_header_chars_ascii(n);
    vstd::utf8::is_ascii_chars_encode_utf8(hc);
    lemma_dec_digits(n);
    assert(pow10(7) == 10000000) by {
        reveal_with_fuel(pow10, 8);
    }
    assert(MAX_LSP_MESSAGE_BYTES == 1048576) by (bit_vector);
    assert(MAX_LSP_HEADER_BYTES == 8192) by (bit_vector);
    lemma_dec_len(n, 7);
    let len = hb.len();
    let dl = dec(n).len();
    assert(len == 20 + dl);
    assert(d.take(len as int) =~= hb);
    assert forall|i: int| 0 <= i < len implies #[trigger] d[i] == hc[i] as u8 by {
        assert(d[i] == hb[i]);
    }
    assert forall|i: int| 0 <= i < 16 + dl implies (#[trigger] hc[i]) != '\r' by {
        if i >= 16 {
            assert(hc[i] == dec(n)[i - 16]);
            assert(is_digit(dec(n)[i - 16]));
        }
    }
    assert(ends_header(d.take(len as int)));
    assert forall|j: nat| 0 < j < len implies !ends_header(#[trigger] d.take(j as int)) by {
        if j >= 4 {
            let t = d.take(j as int);
            assert(t[j - 2] == d[j - 2]);
            assert(t[j - 4] == d[j - 4]);
            if j - 2 < 16 + dl {
                assert(hc[j - 2] != '\r');
            } else {
                assert(j - 2 == 16 + dl + 1 || j - 2 == 16 + dl);
                if j - 2 == 16 + dl {
                    assert(hc[j - 4] != '\r');
                }
            }
        }
    }
    lemma_header_scan_completes(d, 0, len);
    lemma_header_announces(n);
    vstd::utf8::encode_utf8_valid_utf8(message);
    vstd::utf8::encode_utf8_decode_utf8(message);
    assert(d.subrange(len as int, len + n as int) =~= mb);
}

} // verus!
