//! The robot's dialogue with its ESP8266 WiFi module over AT commands.
//!
//! Every operation of [`Device`] is a short exchange of commands and replies.
//! The device decides; whoever owns the serial port performs the I/O: an
//! operation returns the first [`Action`], and each reply that the port
//! delivers is handed back (`on_reply`, `on_response`) to get the next one,
//! until the action is `Finished`.
use vstd::prelude::*;
use vstd::string::StringSliceAdditionalSpecFns;
use vstd::utf8::valid_utf8;
use crate::text::{
    all_digits, contains, decimal, digits_value, law_decimal_reads_back, first_index, index_of, lemma_decimal_len_le_4,
    lemma_first_occurrence_unique, merge, merged, occurs, occurs_at, WriteBuf,
};

verus! {

/// Size of the buffer that command replies are read into.
pub const BUF_LEN: usize = 1024;

/// Room for an `AT+CIPSTART` command.
pub const CIPSTART_CAPACITY: usize = 128;

/// Room for an HTTP request.
pub const REQUEST_CAPACITY: usize = 1600;

/// Room for an `AT+CIPSEND` command.
pub const CIPSEND_CAPACITY: usize = 1024;

/// What can go wrong while talking to the WiFi module.
#[derive(Debug, Clone, Copy, PartialEq, Eq, Structural)]
pub enum PortError {
    Error,
    HttpError,
    JsonError,
    WriteError,
}

pub type PortResult<T> = Result<T, PortError>;

/// How a write ended: `None` when it succeeded, else its error.
pub open spec fn write_outcome(r: PortResult<()>) -> Option<PortError> {
    match r {
        Ok(_) => None,
        Err(e) => Some(e),
    }
}

/// A log of writes: what was written, and `None` or the error the write ended with.
pub type WriteLog = Seq<(Seq<u8>, Option<PortError>)>;

/// A serial link to the WiFi module.
pub trait Port {
    /// The writes made on this link so far, oldest first, each with how it ended.
    /// It exists in proofs only: an implementation outside verified code gives
    /// it a body that is never run.
    spec fn writes(&self) -> WriteLog;

    /// Writes `message` to the module; the write and how it ended are logged.
    fn write(&mut self, message: &[u8]) -> (r: PortResult<()>)
        ensures
            final(self).writes() == old(self).writes().push((message@, write_outcome(r))),
    ;

    /// Writes `message` followed by CR LF; stops at the first write that fails and
    /// returns its error.
    fn write_message(&mut self, message: &[u8]) -> (r: PortResult<()>)
        ensures
            match r {
                Ok(_) => final(self).writes() == old(self).writes().push((message@, None::<PortError>)).push(
                    (seq![13u8, 10u8], None::<PortError>),
                ),
                Err(e) => final(self).writes() == old(self).writes().push((message@, Some(e)))
                    || final(self).writes() == old(self).writes().push((message@, None::<PortError>)).push(
                    (seq![13u8, 10u8], Some(e)),
                ),
            },
    {
        match self.write(message) {
            Ok(_) => {},
            Err(e) => return Err(e),
        }
        let crlf: [u8; 2] = [13u8, 10u8];
        let line_end = crlf.as_slice();
        assert(line_end@ =~= seq![13u8, 10u8]);
        match self.write(line_end) {
            Ok(_) => {},
            Err(e) => return Err(e),
        }
        Ok(())
    }

    /// Reads what the module has sent into `out`; returns how many bytes were read.
    fn read(&mut self, out: &mut [u8]) -> PortResult<usize>;
}

/// What a finished operation gives back.
#[derive(Debug, PartialEq, Eq)]
pub enum Reply {
    /// The operation succeeded and has nothing to report.
    Done,
    /// The connection status that `AT+CIPSTATUS` reported.
    Status(u8),
    /// The JSON object that the server answered a POST request with.
    Json(Vec<u8>),
}

/// The next thing that the owner of the port has to do.
#[derive(Debug, PartialEq, Eq)]
pub enum Action {
    /// Write `message` and CR LF, then read into a buffer from its start until
    /// `expected` occurs in what was read; hand what was read to `Device::on_reply`.
    Command { message: Vec<u8>, expected: &'static str },
    /// Write `data` as it is (a failed write ends the operation with the port's
    /// error), then read the HTTP response: read until "SEND OK" occurs, then on
    /// until "CLOSED" occurs after it; hand the bytes after "SEND OK" up to and
    /// including that "CLOSED" to `Device::on_response`.
    Transmit { data: Vec<u8> },
    /// The operation is over.
    Finished(PortResult<Reply>),
}

/// The meaning of a [`Reply`].
pub enum ReplyView {
    Done,
    Status(u8),
    Json(Seq<u8>),
}

/// The meaning of an [`Action`].
pub enum ActionView {
    Command { message: Seq<u8>, expected: Seq<u8> },
    Transmit { data: Seq<u8> },
    Finished(Result<ReplyView, PortError>),
}

impl View for Reply {
    type V = ReplyView;

    open spec fn view(&self) -> ReplyView {
        match self {
            Reply::Done => ReplyView::Done,
            Reply::Status(s) => ReplyView::Status(*s),
            Reply::Json(j) => ReplyView::Json(j@),
        }
    }
}

impl View for Action {
    type V = ActionView;

    open spec fn view(&self) -> ActionView {
        match self {
            Action::Command { message, expected } => ActionView::Command {
                message: message@,
                expected: expected.spec_bytes(),
            },
            Action::Transmit { data } => ActionView::Transmit { data: data@ },
            Action::Finished(Ok(r)) => ActionView::Finished(Ok(r@)),
            Action::Finished(Err(e)) => ActionView::Finished(Err(*e)),
        }
    }
}

/// Where an operation of the device stands.
#[derive(Debug, Clone, Copy, PartialEq, Eq, Structural)]
pub enum Phase {
    /// No operation is under way.
    Idle,
    /// `ip_status` waits for the reply to `AT+CIPSTATUS`.
    Status,
    /// `connect_to_wifi_if_needed` waits for the reply to `AT+CIPSTATUS`.
    StatusToConnect,
    /// `connect_to_wifi_if_needed` waits for the reply to `AT+CIPCLOSE`.
    ClosingToConnect,
    /// `connect_to_wifi_if_needed` waits for the reply to `AT+CWJAP`.
    Joining,
    /// `close_connection` waits for the reply to `AT+CIPCLOSE`.
    Closing,
    /// `establish_connection` waits for the reply to `AT+CIPSTART`.
    Connecting,
    /// `make_post_request` waits for the reply to `AT+CIPSTART`.
    ConnectingToPost,
    /// `make_post_request` waits for the prompt of `AT+CIPSEND`.
    AwaitingPrompt,
    /// `make_post_request` waits for the HTTP response.
    AwaitingResponse,
}

/// The phases in which the device waits for the reply to a command.
pub open spec fn awaits_reply(p: Phase) -> bool {
    match p {
        Phase::Idle | Phase::AwaitingResponse => false,
        _ => true,
    }
}

// ------------------------------------------------------------------
// Command texts

pub open spec fn cipstatus_text() -> Seq<u8> {
    "AT+CIPSTATUS".spec_bytes()
}

pub open spec fn cipclose_text() -> Seq<u8> {
    "AT+CIPCLOSE".spec_bytes()
}

pub open spec fn join_text() -> Seq<u8> {
    "AT+CWJAP=\"ELM NET\",\"tetkarumpumpel\"".spec_bytes()
}

/// `AT+CIPSTART="TCP","<ip>",<port>`
pub open spec fn cipstart_text(ip: Seq<u8>, port: nat) -> Seq<u8> {
    "AT+CIPSTART=\"TCP\",\"".spec_bytes() + ip + "\",".spec_bytes() + decimal(port)
}

/// Law: the `AT+CIPSTART` command names the address as given, and ends in a run of
/// decimal digits that reads as the port.
pub proof fn law_cipstart_names_ip_and_port(ip: Seq<u8>, port: nat)
    ensures
        ({
            let c = cipstart_text(ip, port);
            let h = "AT+CIPSTART=\"TCP\",\"".spec_bytes();
            let digits_start = (h.len() + ip.len() + "\",".spec_bytes().len()) as int;
            &&& c.subrange(0, h.len() as int) == h
            &&& c.subrange(h.len() as int, (h.len() + ip.len()) as int) == ip
            &&& digits_start < c.len()
            &&& all_digits(c.subrange(digits_start, c.len() as int))
            &&& digits_value(c.subrange(digits_start, c.len() as int)) == port
        }),
{
    let h = "AT+CIPSTART=\"TCP\",\"".spec_bytes();
    let q = "\",".spec_bytes();
    let c = cipstart_text(ip, port);
    law_decimal_reads_back(port);
    let a = h.len() as int;
    let b = a + ip.len();
    let e = b + q.len();
    assert(c.subrange(0, a) =~= h);
    assert(c.subrange(a, b) =~= ip);
    assert(c.subrange(e, c.len() as int) =~= decimal(port));
}

/// The POST request that carries `data` to the server's `/poll`.
pub open spec fn request_text(data: Seq<u8>) -> Seq<u8> {
    "POST /poll HTTP/1.1\r\nContent-Type: application/json\r\nConnection:close\r\nContent-Length: ".spec_bytes()
        + decimal(data.len()) + "\r\n\r\n".spec_bytes() + data
}

/// Law: the POST request for `data` is the fixed header ending in
/// "Content-Length: ", a run of decimal digits that reads as the number of bytes
/// of `data`, the blank line, and then `data` itself.
pub proof fn law_request_announces_data_length(data: Seq<u8>)
    ensures
        ({
            let r = request_text(data);
            let h = "POST /poll HTTP/1.1\r\nContent-Type: application/json\r\nConnection:close\r\nContent-Length: ".spec_bytes();
            let body_start = r.len() - data.len();
            let digits_end = body_start - 4;
            &&& h.len() < digits_end
            &&& r.subrange(0, h.len() as int) == h
            &&& all_digits(r.subrange(h.len() as int, digits_end))
            &&& digits_value(r.subrange(h.len() as int, digits_end)) == data.len()
            &&& r.subrange(digits_end, body_start) == "\r\n\r\n".spec_bytes()
            &&& r.subrange(body_start, r.len() as int) == data
        }),
{
    let h = "POST /poll HTTP/1.1\r\nContent-Type: application/json\r\nConnection:close\r\nContent-Length: ".spec_bytes();
    let blank = "\r\n\r\n".spec_bytes();
    reveal_strlit("\r\n\r\n");
    assert(vstd::string::is_ascii("\r\n\r\n"));
    vstd::string::is_ascii_spec_bytes("\r\n\r\n");
    assert(blank.len() == 4);
    let d = decimal(data.len());
    law_decimal_reads_back(data.len());
    let r = request_text(data);
    assert(r == h + d + blank + data);
    assert(r.subrange(0, h.len() as int) =~= h);
    let a = h.len() as int;
    let b = a + d.len();
    assert(r.subrange(a, b) =~= d);
    assert(r.subrange(b, b + 4) =~= blank);
    assert(r.subrange(b + 4, r.len() as int) =~= data);
}

/// `AT+CIPSEND=<n>`
pub open spec fn cipsend_text(n: nat) -> Seq<u8> {
    "AT+CIPSEND=".spec_bytes() + decimal(n)
}

/// Law: the `AT+CIPSEND` command for `n` bytes is "AT+CIPSEND=" followed by a
/// run of decimal digits that reads as `n`, and nothing else.
pub proof fn law_cipsend_announces_n(n: nat)
    ensures
        ({
            let c = cipsend_text(n);
            let k = "AT+CIPSEND=".spec_bytes().len();
            &&& c.subrange(0, k as int) == "AT+CIPSEND=".spec_bytes()
            &&& c.len() > k
            &&& all_digits(c.subrange(k as int, c.len() as int))
            &&& digits_value(c.subrange(k as int, c.len() as int)) == n
        }),
{
    let p = "AT+CIPSEND=".spec_bytes();
    let c = cipsend_text(n);
    law_decimal_reads_back(n);
    assert(c.subrange(0, p.len() as int) =~= p);
    assert(c.subrange(p.len() as int, c.len() as int) =~= decimal(n));
}

// ------------------------------------------------------------------
// Reading the status reply

/// Where the status digit stands in a reply buffer: just after the first "STATUS:".
pub open spec fn status_position(buf: Seq<u8>) -> Option<int> {
    if occurs(buf, "STATUS:".spec_bytes()) {
        Some(first_index(buf, "STATUS:".spec_bytes()) + 7)
    } else {
        None
    }
}

/// The status that a reply buffer reports: the digit after the first "STATUS:".
pub open spec fn status_of(buf: Seq<u8>) -> Option<u8> {
    match status_position(buf) {
        Some(p) => Some((buf[p] - 48) as u8),
        None => None,
    }
}

/// A status reply can be read: if there is a "STATUS:", a digit-or-later byte follows it.
pub open spec fn status_readable(buf: Seq<u8>) -> bool {
    match status_position(buf) {
        Some(p) => p < buf.len() && buf[p] >= 48,
        None => true,
    }
}

/// A reply can be taken in the given phase.
pub open spec fn reply_accepted(p: Phase, buf: Seq<u8>) -> bool {
    (p == Phase::Status || p == Phase::StatusToConnect) ==> status_readable(buf)
}

proof fn lemma_status_literal()
    ensures
        "STATUS:".spec_bytes().len() == 7,
{
    reveal_strlit("STATUS:");
    assert(vstd::string::is_ascii("STATUS:"));
    vstd::string::is_ascii_spec_bytes("STATUS:");
}

/// Reads the connection status from a reply buffer.
pub fn parse_ip_status(buf: &[u8]) -> (r: PortResult<u8>)
    requires
        status_readable(buf@),
    ensures
        match status_of(buf@) {
            Some(s) => r == Ok::<u8, PortError>(s),
            None => r == Err::<u8, PortError>(PortError::Error),
        },
{
    proof {
        lemma_status_literal();
    }
    let len = buf.len();
    let pattern = "STATUS:".as_bytes();
    match index_of(buf, pattern) {
        Some(index) => {
            proof {
                lemma_first_occurrence_unique(buf@, pattern@, index as int);
                assert(occurs_at(buf@, pattern@, index as int));
            }
            Ok(buf[index + 7] - 48)
        },
        None => Err(PortError::Error),
    }
}

// ------------------------------------------------------------------
// Reading the HTTP response

/// `s[a..b]` is one of the lines of `s` (without its line feed).
pub open spec fn is_line(s: Seq<u8>, a: int, b: int) -> bool {
    &&& 0 <= a <= b <= s.len()
    &&& (a == 0 || s[a - 1] == 10)
    &&& (b == s.len() || s[b] == 10)
    &&& forall|k: int| a <= k < b ==> s[k] != 10
}

/// The text of the line `s[a..b]`: a carriage return before its line feed is dropped.
pub open spec fn line_text(s: Seq<u8>, a: int, b: int) -> Seq<u8> {
    if b < s.len() && a < b && s[b - 1] == 13 {
        s.subrange(a, b - 1)
    } else {
        s.subrange(a, b)
    }
}

/// `t` ends with `suffix`.
pub open spec fn ends_with(t: Seq<u8>, suffix: Seq<u8>) -> bool {
    t.len() >= suffix.len() && t.subrange(t.len() - suffix.len(), t.len() as int) == suffix
}

/// A status line of a successful HTTP response: it mentions HTTP and ends with OK.
pub open spec fn is_ok_line(t: Seq<u8>) -> bool {
    occurs(t, "HTTP".spec_bytes()) && ends_with(t, "OK".spec_bytes())
}

/// Some line of `s` is the status line of a successful HTTP response.
pub open spec fn has_ok_line(s: Seq<u8>) -> bool {
    exists|a: int, b: int| is_line(s, a, b) && is_ok_line(#[trigger] line_text(s, a, b))
}

/// What the response to a POST request gives: the text from the first `{` to the
/// first `}`, if the response has an OK status line and both braces.
pub open spec fn response_outcome(s: Seq<u8>) -> Result<ReplyView, PortError> {
    if !has_ok_line(s) {
        Err(PortError::HttpError)
    } else if occurs(s, "{".spec_bytes()) && occurs(s, "}".spec_bytes()) {
        Ok(
            ReplyView::Json(
                s.subrange(first_index(s, "{".spec_bytes()), first_index(s, "}".spec_bytes()) + 1),
            ),
        )
    } else {
        Err(PortError::HttpError)
    }
}

/// A response can be taken: it is UTF-8, and where it is read as a success its
/// first `{` does not come after its first `}`.
pub open spec fn response_accepted(s: Seq<u8>) -> bool {
    &&& valid_utf8(s)
    &&& (has_ok_line(s) && occurs(s, "{".spec_bytes()) && occurs(s, "}".spec_bytes()))
        ==> first_index(s, "{".spec_bytes()) <= first_index(s, "}".spec_bytes())
}

proof fn lemma_response_literals()
    ensures
        "HTTP".spec_bytes().len() == 4,
        "OK".spec_bytes().len() == 2,
        "{".spec_bytes().len() == 1,
        "}".spec_bytes().len() == 1,
{
    reveal_strlit("HTTP");
    reveal_strlit("OK");
    reveal_strlit("{");
    reveal_strlit("}");
    assert(vstd::string::is_ascii("HTTP"));
    assert(vstd::string::is_ascii("OK"));
    assert(vstd::string::is_ascii("{"));
    assert(vstd::string::is_ascii("}"));
    vstd::string::is_ascii_spec_bytes("HTTP");
    vstd::string::is_ascii_spec_bytes("OK");
    vstd::string::is_ascii_spec_bytes("{");
    vstd::string::is_ascii_spec_bytes("}");
}

fn ends_with_at(s: &[u8], end: usize, suffix: &[u8], start: usize) -> (r: bool)
    requires
        start <= end <= s@.len(),
    ensures
        r == ends_with(s@.subrange(start as int, end as int), suffix@),
{
    if end - start < suffix.len() {
        return false;
    }
    let from = end - suffix.len();
    let mut k: usize = 0;
    while k < suffix.len()
        invariant
            start <= from,
            from + suffix@.len() == end,
            end <= s@.len(),
            k <= suffix@.len(),
            forall|m: int| 0 <= m < k ==> s@[from + m] == suffix@[m],
        decreases suffix@.len() - k,
    {
        if s[from + k] != suffix[k] {
            assert(s@.subrange(start as int, end as int).subrange(
                (end - start - suffix@.len()) as int,
                (end - start) as int,
            )[k as int] != suffix@[k as int]);
            return false;
        }
        k += 1;
    }
    assert(s@.subrange(start as int, end as int).subrange(
        (end - start - suffix@.len()) as int,
        (end - start) as int,
    ) =~= suffix@);
    true
}

/// Whether `s[a..b]`, a line of `s`, is the status line of a successful HTTP response.
fn check_line(s: &[u8], a: usize, b: usize) -> (r: bool)
    requires
        a <= b <= s@.len(),
    ensures
        r == is_ok_line(line_text(s@, a as int, b as int)),
{
    proof {
        lemma_response_literals();
    }
    let end = if b < s.len() && a < b && s[b - 1] == 13 {
        b - 1
    } else {
        b
    };
    let line = vstd::slice::slice_subrange(s, a, end);
    assert(line@ == line_text(s@, a as int, b as int));
    contains(line, "HTTP".as_bytes()) && ends_with_at(s, end, "OK".as_bytes(), a)
}

/// Whether some line of `s` is the status line of a successful HTTP response.
pub fn find_ok_line(s: &[u8]) -> (r: bool)
    ensures
        r == has_ok_line(s@),
{
    let len = s.len();
    let mut a: usize = 0;
    let mut j: usize = 0;
    while j < len
        invariant
            len == s@.len(),
            a <= j <= len,
            a == 0 || s@[a - 1] == 10,
            forall|k: int| a <= k < j ==> s@[k] != 10,
            forall|a1: int, b1: int|
                is_line(s@, a1, b1) && b1 < j ==> !is_ok_line(#[trigger] line_text(s@, a1, b1)),
        decreases len - j,
    {
        if s[j] == 10 {
            if check_line(s, a, j) {
                assert(is_line(s@, a as int, j as int));
                return true;
            }
            assert forall|a1: int, b1: int|
                is_line(s@, a1, b1) && b1 < j + 1 implies !is_ok_line(
                #[trigger] line_text(s@, a1, b1),
            ) by {
                if b1 == j {
                    if a1 < a {
                        assert(s@[a - 1] == 10);
                    } else if a1 > a {
                        assert(s@[a1 - 1] == 10);
                    }
                }
            }
            a = j + 1;
        } else {
            assert forall|a1: int, b1: int|
                is_line(s@, a1, b1) && b1 < j + 1 implies !is_ok_line(
                #[trigger] line_text(s@, a1, b1),
            ) by {
                if b1 == j {
                    assert(s@[b1] == 10);
                }
            }
        }
        j += 1;
    }
    if check_line(s, a, len) {
        assert(is_line(s@, a as int, len as int));
        return true;
    }
    assert forall|a1: int, b1: int| is_line(s@, a1, b1) implies !is_ok_line(
        #[trigger] line_text(s@, a1, b1),
    ) by {
        if b1 == len {
            if a1 < a {
                assert(s@[a - 1] == 10);
            } else if a1 > a {
                assert(s@[a1 - 1] == 10);
            }
        }
    }
    false
}

/// Takes the JSON object out of the response to a POST request.
pub fn parse_response(s: &[u8]) -> (r: PortResult<Reply>)
    requires
        response_accepted(s@),
    ensures
        match r {
            Ok(reply) => response_outcome(s@) == Ok::<ReplyView, PortError>(reply@),
            Err(e) => response_outcome(s@) == Err::<ReplyView, PortError>(e),
        },
{
    proof {
        lemma_response_literals();
    }
    if !find_ok_line(s) {
        return Err(PortError::HttpError);
    }
    let len = s.len();
    let open = "{".as_bytes();
    let close = "}".as_bytes();
    match (index_of(s, open), index_of(s, close)) {
        (Some(start), Some(end)) => {
            proof {
                lemma_first_occurrence_unique(s@, open@, start as int);
                lemma_first_occurrence_unique(s@, close@, end as int);
                assert(occurs_at(s@, open@, start as int));
                assert(occurs_at(s@, close@, end as int));
            }
            let json = vstd::slice::slice_to_vec(vstd::slice::slice_subrange(s, start, end + 1));
            Ok(Reply::Json(json))
        },
        _ => Err(PortError::HttpError),
    }
}

// ------------------------------------------------------------------
// Building commands

/// The `AT+CIPSTART` command that opens a TCP connection to `ip:port`.
pub fn cipstart_command(ip: &str, port: u32) -> (r: PortResult<Vec<u8>>)
    ensures
        match r {
            Ok(c) => c@ == cipstart_text(ip.spec_bytes(), port as nat)
                && c@.len() <= CIPSTART_CAPACITY,
            Err(e) => e == PortError::WriteError && cipstart_text(ip.spec_bytes(), port as nat).len()
                > CIPSTART_CAPACITY,
        },
{
    let mut w = WriteBuf::new(vec![0u8; CIPSTART_CAPACITY]);
    let ghost p1 = "AT+CIPSTART=\"TCP\",\"".spec_bytes();
    let ghost p2 = ip.spec_bytes();
    let ghost p3 = "\",".spec_bytes();
    let ghost p4 = decimal(port as nat);
    assert(cipstart_text(ip.spec_bytes(), port as nat) == p1 + p2 + p3 + p4);
    match w.write_str("AT+CIPSTART=\"TCP\",\"") {
        Ok(()) => {},
        Err(()) => return Err(PortError::WriteError),
    }
    match w.write_str(ip) {
        Ok(()) => {},
        Err(()) => return Err(PortError::WriteError),
    }
    match w.write_str("\",") {
        Ok(()) => {},
        Err(()) => return Err(PortError::WriteError),
    }
    match w.write_decimal(port as u64) {
        Ok(()) => {},
        Err(()) => return Err(PortError::WriteError),
    }
    Ok(w.written())
}

/// The POST request that carries `data` to the server.
pub fn request_bytes(data: &[u8]) -> (r: PortResult<Vec<u8>>)
    ensures
        match r {
            Ok(c) => c@ == request_text(data@) && c@.len() <= REQUEST_CAPACITY,
            Err(e) => e == PortError::WriteError && request_text(data@).len() > REQUEST_CAPACITY,
        },
{
    let mut w = WriteBuf::new(vec![0u8; REQUEST_CAPACITY]);
    let ghost p1 =
        "POST /poll HTTP/1.1\r\nContent-Type: application/json\r\nConnection:close\r\nContent-Length: ".spec_bytes();
    let ghost p2 = decimal(data@.len());
    let ghost p3 = "\r\n\r\n".spec_bytes();
    assert(request_text(data@) == p1 + p2 + p3 + data@);
    match w.write_str(
        "POST /poll HTTP/1.1\r\nContent-Type: application/json\r\nConnection:close\r\nContent-Length: ",
    ) {
        Ok(()) => {},
        Err(()) => return Err(PortError::WriteError),
    }
    match w.write_decimal(data.len() as u64) {
        Ok(()) => {},
        Err(()) => return Err(PortError::WriteError),
    }
    match w.write_str("\r\n\r\n") {
        Ok(()) => {},
        Err(()) => return Err(PortError::WriteError),
    }
    match w.write_bytes(data) {
        Ok(()) => {},
        Err(()) => return Err(PortError::WriteError),
    }
    Ok(w.written())
}

proof fn lemma_cipsend_fits(n: nat)
    requires
        n <= REQUEST_CAPACITY,
    ensures
        cipsend_text(n).len() <= CIPSEND_CAPACITY,
{
    reveal_strlit("AT+CIPSEND=");
    assert(vstd::string::is_ascii("AT+CIPSEND="));
    vstd::string::is_ascii_spec_bytes("AT+CIPSEND=");
    lemma_decimal_len_le_4(n);
}

/// The `AT+CIPSEND` command that announces `n` bytes of data.
pub fn cipsend_command(n: usize) -> (r: Vec<u8>)
    requires
        n <= REQUEST_CAPACITY,
    ensures
        r@ == cipsend_text(n as nat),
{
    proof {
        lemma_cipsend_fits(n as nat);
    }
    let mut w = WriteBuf::new(vec![0u8; CIPSEND_CAPACITY]);
    let _ = w.write_str("AT+CIPSEND=");
    let _ = w.write_decimal(n as u64);
    w.written()
}

fn command(message: &str, expected: &'static str) -> (a: Action)
    ensures
        a@ == (ActionView::Command { message: message.spec_bytes(), expected: expected.spec_bytes() }),
{
    Action::Command { message: vstd::slice::slice_to_vec(message.as_bytes()), expected }
}

// ------------------------------------------------------------------
// The dialogue

/// What taking a command reply does in each phase: the next phase, the next
/// payload and the next action. `buf` is the reply buffer after the reply was
/// read into it.
pub open spec fn reply_step(p: Phase, buf: Seq<u8>, payload: Seq<u8>) -> (Phase, Seq<u8>, ActionView) {
    match p {
        Phase::Status => (
            Phase::Idle,
            payload,
            ActionView::Finished(
                match status_of(buf) {
                    Some(s) => Ok(ReplyView::Status(s)),
                    None => Err(PortError::Error),
                },
            ),
        ),
        Phase::StatusToConnect => match status_of(buf) {
            None => (Phase::Idle, payload, ActionView::Finished(Err(PortError::Error))),
            Some(s) => if s == 2 {
                (Phase::Idle, payload, ActionView::Finished(Ok(ReplyView::Done)))
            } else if s == 3 {
                (
                    Phase::ClosingToConnect,
                    payload,
                    ActionView::Command { message: cipclose_text(), expected: "CLOSED".spec_bytes() },
                )
            } else {
                (
                    Phase::Joining,
                    payload,
                    ActionView::Command { message: join_text(), expected: "OK".spec_bytes() },
                )
            },
        },
        Phase::ClosingToConnect => (
            Phase::Joining,
            payload,
            ActionView::Command { message: join_text(), expected: "OK".spec_bytes() },
        ),
        Phase::Joining | Phase::Closing | Phase::Connecting => (
            Phase::Idle,
            payload,
            ActionView::Finished(Ok(ReplyView::Done)),
        ),
        Phase::ConnectingToPost => {
            let request = request_text(payload);
            if request.len() > REQUEST_CAPACITY {
                (Phase::Idle, payload, ActionView::Finished(Err(PortError::WriteError)))
            } else {
                (
                    Phase::AwaitingPrompt,
                    request,
                    ActionView::Command {
                        message: cipsend_text(request.len()),
                        expected: ">".spec_bytes(),
                    },
                )
            }
        },
        Phase::AwaitingPrompt => (Phase::AwaitingResponse, payload, ActionView::Transmit { data: payload }),
        Phase::Idle | Phase::AwaitingResponse => (p, payload, ActionView::Finished(Err(PortError::Error))),
    }
}

/// The device end of the dialogue with the WiFi module.
pub struct Device<T: Port> {
    /// The link to the module.
    pub brains: T,
    buf: Vec<u8>,
    phase: Phase,
    payload: Vec<u8>,
}

impl<T: Port> Device<T> {
    /// The link to the module.
    pub closed spec fn link(&self) -> T {
        self.brains
    }

    /// The buffer that command replies are read into.
    pub closed spec fn buffer(&self) -> Seq<u8> {
        self.buf@
    }

    /// Where the current operation stands.
    pub closed spec fn phase(&self) -> Phase {
        self.phase
    }

    /// The data that the current operation still has to send.
    pub closed spec fn payload(&self) -> Seq<u8> {
        self.payload@
    }

    pub open spec fn wf(&self) -> bool {
        self.buffer().len() == BUF_LEN
    }

    /// A device that talks over `port`, with a zeroed reply buffer and no operation under way.
    pub fn new(port: T) -> (d: Device<T>)
        ensures
            d.wf(),
            d.link() == port,
            d.buffer() == Seq::new(BUF_LEN as nat, |i: int| 0u8),
            d.phase() == Phase::Idle,
            d.payload() == Seq::<u8>::empty(),
    {
        let buf = vec![0u8; BUF_LEN];
        let d = Device { brains: port, buf, phase: Phase::Idle, payload: Vec::new() };
        assert(d.buffer() =~= Seq::new(BUF_LEN as nat, |i: int| 0u8));
        d
    }

    /// Asks the module for its connection status (`AT+CIPSTATUS`).
    pub fn ip_status(&mut self) -> (a: Action)
        requires
            old(self).wf(),
        ensures
            final(self).wf(),
            final(self).link() == old(self).link(),
            final(self).buffer() == old(self).buffer(),
            final(self).payload() == old(self).payload(),
            final(self).phase() == Phase::Status,
            a@ == (ActionView::Command { message: cipstatus_text(), expected: "OK".spec_bytes() }),
    {
        self.phase = Phase::Status;
        command("AT+CIPSTATUS", "OK")
    }

    /// Joins the access point unless the module is connected already: status 2 means
    /// connected; status 3 means a connection is open, which is closed first.
    pub fn connect_to_wifi_if_needed(&mut self) -> (a: Action)
        requires
            old(self).wf(),
        ensures
            final(self).wf(),
            final(self).link() == old(self).link(),
            final(self).buffer() == old(self).buffer(),
            final(self).payload() == old(self).payload(),
            final(self).phase() == Phase::StatusToConnect,
            a@ == (ActionView::Command { message: cipstatus_text(), expected: "OK".spec_bytes() }),
    {
        self.phase = Phase::StatusToConnect;
        command("AT+CIPSTATUS", "OK")
    }

    /// Closes the TCP connection (`AT+CIPCLOSE`).
    pub fn close_connection(&mut self) -> (a: Action)
        requires
            old(self).wf(),
        ensures
            final(self).wf(),
            final(self).link() == old(self).link(),
            final(self).buffer() == old(self).buffer(),
            final(self).payload() == old(self).payload(),
            final(self).phase() == Phase::Closing,
            a@ == (ActionView::Command { message: cipclose_text(), expected: "CLOSED".spec_bytes() }),
    {
        self.phase = Phase::Closing;
        command("AT+CIPCLOSE", "CLOSED")
    }

    /// Opens a TCP connection to `ip:port` (`AT+CIPSTART`); fails with `WriteError`
    /// when the command does not fit its buffer.
    pub fn establish_connection(&mut self, ip: &str, port: u32) -> (a: Action)
        requires
            old(self).wf(),
        ensures
            final(self).wf(),
            final(self).link() == old(self).link(),
            final(self).buffer() == old(self).buffer(),
            final(self).payload() == old(self).payload(),
            ({
                let text = cipstart_text(ip.spec_bytes(), port as nat);
                if text.len() <= CIPSTART_CAPACITY {
                    &&& final(self).phase() == Phase::Connecting
                    &&& a@ == (ActionView::Command { message: text, expected: "OK".spec_bytes() })
                } else {
                    &&& final(self).phase() == Phase::Idle
                    &&& a@ == ActionView::Finished(Err(PortError::WriteError))
                }
            }),
    {
        match cipstart_command(ip, port) {
            Ok(message) => {
                self.phase = Phase::Connecting;
                Action::Command { message, expected: "OK" }
            },
            Err(e) => {
                self.phase = Phase::Idle;
                Action::Finished(Err(e))
            },
        }
    }

    /// Posts `data_str` to the server's `/poll` at `ip:port` and gets the JSON object
    /// that the server answers with: opens the connection, announces the request
    /// with `AT+CIPSEND`, sends it and reads the response.
    pub fn make_post_request(&mut self, data_str: &str, ip: &str, port: u32) -> (a: Action)
        requires
            old(self).wf(),
        ensures
            final(self).wf(),
            final(self).link() == old(self).link(),
            final(self).buffer() == old(self).buffer(),
            ({
                let text = cipstart_text(ip.spec_bytes(), port as nat);
                if text.len() <= CIPSTART_CAPACITY {
                    &&& final(self).phase() == Phase::ConnectingToPost
                    &&& final(self).payload() == data_str.spec_bytes()
                    &&& a@ == (ActionView::Command { message: text, expected: "OK".spec_bytes() })
                } else {
                    &&& final(self).phase() == Phase::Idle
                    &&& final(self).payload() == old(self).payload()
                    &&& a@ == ActionView::Finished(Err(PortError::WriteError))
                }
            }),
    {
        match cipstart_command(ip, port) {
            Ok(message) => {
                self.phase = Phase::ConnectingToPost;
                self.payload = vstd::slice::slice_to_vec(data_str.as_bytes());
                Action::Command { message, expected: "OK" }
            },
            Err(e) => {
                self.phase = Phase::Idle;
                Action::Finished(Err(e))
            },
        }
    }

    /// Copies `reply` over the start of the reply buffer.
    fn take_reply(&mut self, reply: &[u8])
        requires
            old(self).wf(),
            reply@.len() <= BUF_LEN,
        ensures
            final(self).wf(),
            final(self).link() == old(self).link(),
            final(self).phase() == old(self).phase(),
            final(self).payload() == old(self).payload(),
            final(self).buffer() == merged(old(self).buffer(), reply@),
    {
        let merged_buf = merge(self.buf.as_slice(), reply);
        self.buf = merged_buf;
    }

    /// Whether `reply` can be taken now: where the operation reads a status, the
    /// status digit must be there to read.
    pub fn accepts_reply(&self, reply: &[u8]) -> (r: bool)
        requires
            self.wf(),
            reply@.len() <= BUF_LEN,
        ensures
            r == reply_accepted(self.phase(), merged(self.buffer(), reply@)),
    {
        if self.phase == Phase::Status || self.phase == Phase::StatusToConnect {
            let merged_buf = merge(self.buf.as_slice(), reply);
            can_read_status(merged_buf.as_slice())
        } else {
            true
        }
    }

    /// Takes the reply to the last command (what was read into the start of the reply
    /// buffer) and decides what comes next.
    pub fn on_reply(&mut self, reply: &[u8]) -> (a: Action)
        requires
            old(self).wf(),
            awaits_reply(old(self).phase()),
            reply@.len() <= BUF_LEN,
            reply_accepted(old(self).phase(), merged(old(self).buffer(), reply@)),
        ensures
            final(self).wf(),
            final(self).link() == old(self).link(),
            final(self).buffer() == merged(old(self).buffer(), reply@),
            final(self).phase() == reply_step(old(self).phase(), final(self).buffer(), old(self).payload()).0,
            final(self).payload() == reply_step(old(self).phase(), final(self).buffer(), old(self).payload()).1,
            a@ == reply_step(old(self).phase(), final(self).buffer(), old(self).payload()).2,
    {
        self.take_reply(reply);
        match self.phase {
            Phase::Status => {
                self.phase = Phase::Idle;
                match parse_ip_status(self.buf.as_slice()) {
                    Ok(s) => Action::Finished(Ok(Reply::Status(s))),
                    Err(e) => Action::Finished(Err(e)),
                }
            },
            Phase::StatusToConnect => {
                match parse_ip_status(self.buf.as_slice()) {
                    Ok(s) => {
                        if s == 2 {
                            self.phase = Phase::Idle;
                            Action::Finished(Ok(Reply::Done))
                        } else if s == 3 {
                            self.phase = Phase::ClosingToConnect;
                            command("AT+CIPCLOSE", "CLOSED")
                        } else {
                            self.phase = Phase::Joining;
                            command("AT+CWJAP=\"ELM NET\",\"tetkarumpumpel\"", "OK")
                        }
                    },
                    Err(e) => {
                        self.phase = Phase::Idle;
                        Action::Finished(Err(e))
                    },
                }
            },
            Phase::ClosingToConnect => {
                self.phase = Phase::Joining;
                command("AT+CWJAP=\"ELM NET\",\"tetkarumpumpel\"", "OK")
            },
            Phase::ConnectingToPost => {
                match request_bytes(self.payload.as_slice()) {
                    Ok(request) => {
                        let message = cipsend_command(request.len());
                        self.phase = Phase::AwaitingPrompt;
                        self.payload = request;
                        Action::Command { message, expected: ">" }
                    },
                    Err(e) => {
                        self.phase = Phase::Idle;
                        Action::Finished(Err(e))
                    },
                }
            },
            Phase::AwaitingPrompt => {
                self.phase = Phase::AwaitingResponse;
                let data = copy_vec(&self.payload);
                Action::Transmit { data }
            },
            _ => {
                self.phase = Phase::Idle;
                Action::Finished(Ok(Reply::Done))
            },
        }
    }

    /// Takes the HTTP response to the POST request and finishes `make_post_request`.
    pub fn on_response(&mut self, response: &[u8]) -> (a: Action)
        requires
            old(self).wf(),
            old(self).phase() == Phase::AwaitingResponse,
            response_accepted(response@),
        ensures
            final(self).wf(),
            final(self).link() == old(self).link(),
            final(self).buffer() == old(self).buffer(),
            final(self).payload() == old(self).payload(),
            final(self).phase() == Phase::Idle,
            a@ == ActionView::Finished(response_outcome(response@)),
    {
        self.phase = Phase::Idle;
        Action::Finished(parse_response(response))
    }
}

fn copy_vec(v: &Vec<u8>) -> (r: Vec<u8>)
    ensures
        r@ == v@,
{
    vstd::slice::slice_to_vec(v.as_slice())
}

/// Whether a status reply can be read from `buf`.
pub fn can_read_status(buf: &[u8]) -> (r: bool)
    ensures
        r == status_readable(buf@),
{
    proof {
        lemma_status_literal();
    }
    let pattern = "STATUS:".as_bytes();
    match index_of(buf, pattern) {
        Some(index) => {
            proof {
                lemma_first_occurrence_unique(buf@, pattern@, index as int);
                assert(occurs_at(buf@, pattern@, index as int));
            }
            let len = buf.len();
            index + 7 < len && buf[index + 7] >= 48
        },
        None => true,
    }
}

/// Whether the braces of an HTTP response can be cut out as the original does: where
/// the response has an OK status line and both braces, the first `{` does not come
/// after the first `}`.
pub fn braces_in_order(s: &[u8]) -> (r: bool)
    ensures
        r == ((has_ok_line(s@) && occurs(s@, "{".spec_bytes()) && occurs(s@, "}".spec_bytes()))
            ==> first_index(s@, "{".spec_bytes()) <= first_index(s@, "}".spec_bytes())),
{
    proof {
        lemma_response_literals();
    }
    if !find_ok_line(s) {
        return true;
    }
    let open = "{".as_bytes();
    let close = "}".as_bytes();
    match (index_of(s, open), index_of(s, close)) {
        (Some(start), Some(end)) => {
            proof {
                lemma_first_occurrence_unique(s@, open@, start as int);
                lemma_first_occurrence_unique(s@, close@, end as int);
                assert(occurs_at(s@, open@, start as int));
                assert(occurs_at(s@, close@, end as int));
            }
            start <= end
        },
        _ => true,
    }
}

// ------------------------------------------------------------------
// Laws of the dialogue

/// How many more replies an operation waits for at most from each phase.
pub open spec fn phase_rank(p: Phase) -> nat {
    match p {
        Phase::Idle => 0,
        Phase::AwaitingResponse => 1,
        Phase::Status | Phase::Joining | Phase::Closing | Phase::Connecting => 1,
        Phase::AwaitingPrompt | Phase::ClosingToConnect => 2,
        Phase::StatusToConnect | Phase::ConnectingToPost => 3,
    }
}

/// Law: every reply moves the operation closer to its end, so no operation of the
/// device waits for more than three command replies and one HTTP response.
pub proof fn law_replies_make_progress(p: Phase, buf: Seq<u8>, payload: Seq<u8>)
    requires
        awaits_reply(p),
    ensures
        phase_rank(reply_step(p, buf, payload).0) < phase_rank(p),
{
}

/// Law: an operation reports its end exactly when the device is idle again.
pub proof fn law_finished_iff_idle(p: Phase, buf: Seq<u8>, payload: Seq<u8>)
    requires
        awaits_reply(p),
    ensures
        (reply_step(p, buf, payload).2 is Finished) <==> reply_step(p, buf, payload).0 == Phase::Idle,
{
}

/// Law: a module that reports status 2 (connected) is left alone by
/// `connect_to_wifi_if_needed`; with status 3 the open connection is closed before
/// joining; with any other status it joins at once.
pub proof fn law_connect_only_when_needed(buf: Seq<u8>, payload: Seq<u8>)
    requires
        status_of(buf) is Some,
    ensures
        status_of(buf) == Some(2u8) ==> reply_step(Phase::StatusToConnect, buf, payload).2
            == ActionView::Finished(Ok(ReplyView::Done)),
        status_of(buf) == Some(3u8) ==> reply_step(Phase::StatusToConnect, buf, payload).2
            == (ActionView::Command { message: cipclose_text(), expected: "CLOSED".spec_bytes() }),
        (status_of(buf) != Some(2u8) && status_of(buf) != Some(3u8)) ==> reply_step(
            Phase::StatusToConnect,
            buf,
            payload,
        ).2 == (ActionView::Command { message: join_text(), expected: "OK".spec_bytes() }),
{
}

/// Law: what a POST request transmits is the request built from the data, and the
/// command before it announces exactly its length.
pub proof fn law_post_announces_its_length(buf1: Seq<u8>, buf2: Seq<u8>, data: Seq<u8>)
    requires
        request_text(data).len() <= REQUEST_CAPACITY,
    ensures
        ({
            let (p1, req, a1) = reply_step(Phase::ConnectingToPost, buf1, data);
            let (p2, _, a2) = reply_step(p1, buf2, req);
            &&& req == request_text(data)
            &&& a1 == (ActionView::Command {
                message: cipsend_text(req.len()),
                expected: ">".spec_bytes(),
            })
            &&& p2 == Phase::AwaitingResponse
            &&& a2 == (ActionView::Transmit { data: req })
        }),
{
}

} // verus!
