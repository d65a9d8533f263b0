//! A plainer dialogue with the ESP8266 WiFi module, for a host that reaches it
//! over a serial adapter: the same request/decide/act shape as `wifi`, with a
//! fixed access point and server.
use vstd::prelude::*;
use vstd::string::StringSliceAdditionalSpecFns;
use crate::text::{
    all_digits, decimal, digits_value, law_decimal_reads_back, lemma_decimal_len_u64, merge, merged,
    WriteBuf,
};

verus! {

/// Size of the buffer that command replies are read into.
pub const BUF_LEN: usize = 1024;

/// Room for an `AT+CIPSEND` command.
pub const CIPSEND_CAPACITY: usize = 256;

/// What can go wrong while talking to the WiFi module.
#[derive(Debug, Clone, Copy, PartialEq, Eq, Structural)]
pub enum PortError {
    Error,
}

pub type PortResult<T> = Result<T, PortError>;

/// How a write ended: `None` when it succeeded, else its error.
pub open spec fn write_outcome(r: PortResult<()>) -> Option<PortError> {
    match r {
        Ok(_) => None,
        Err(e) => Some(e),
    }
}

/// A log of writes: what was written, and `None` or the error the write ended with.
pub type WriteLog = Seq<(Seq<u8>, Option<PortError>)>;

/// A serial link to the WiFi module.
pub trait Port {
    /// The writes made on this link so far, oldest first, each with how it ended.
    /// It exists in proofs only: an implementation outside verified code gives
    /// it a body that is never run.
    spec fn writes(&self) -> WriteLog;

    /// Writes `message` to the module; the write and how it ended are logged.
    fn write(&mut self, message: &[u8]) -> (r: PortResult<()>)
        ensures
            final(self).writes() == old(self).writes().push((message@, write_outcome(r))),
    ;

    /// Writes `message` followed by CR LF; stops at the first write that fails and
    /// returns its error.
    fn write_message(&mut self, message: &[u8]) -> (r: PortResult<()>)
        ensures
            match r {
                Ok(_) => final(self).writes() == old(self).writes().push((message@, None::<PortError>)).push(
                    (seq![13u8, 10u8], None::<PortError>),
                ),
                Err(e) => final(self).writes() == old(self).writes().push((message@, Some(e)))
                    || final(self).writes() == old(self).writes().push((message@, None::<PortError>)).push(
                    (seq![13u8, 10u8], Some(e)),
                ),
            },
    {
        match self.write(message) {
            Ok(_) => {},
            Err(e) => return Err(e),
        }
        let crlf: [u8; 2] = [13u8, 10u8];
        let line_end = crlf.as_slice();
        assert(line_end@ =~= seq![13u8, 10u8]);
        match self.write(line_end) {
            Ok(_) => {},
            Err(e) => return Err(e),
        }
        Ok(())
    }

    /// Reads what the module has sent into `out`; returns how many bytes were read.
    fn read(&mut self, out: &mut [u8]) -> PortResult<usize>;
}

/// The answer to a POST request (its content is not read).
#[derive(Debug, Clone, Copy, PartialEq, Eq, Structural)]
pub struct Data;

/// What a finished operation gives back.
#[derive(Debug, PartialEq, Eq)]
pub enum Reply {
    Done,
    /// The byte that follows "STATUS:" in the reply to `AT+CIPSTATUS`.
    Status(u8),
    Posted(Data),
}

/// The next thing that the owner of the port has to do.
#[derive(Debug, PartialEq, Eq)]
pub enum Action {
    /// Write `message` and CR LF, then read into a buffer from its start until
    /// `expected` occurs in what was read; hand what was read to `Device::on_reply`.
    Command { message: Vec<u8>, expected: &'static str },
    /// Write `data` as it is, whatever the port answers; then call `Device::on_written`.
    WriteUnchecked { data: Vec<u8> },
    /// The operation is over.
    Finished(PortResult<Reply>),
}

/// The meaning of a [`Reply`].
pub enum ReplyView {
    Done,
    Status(u8),
    Posted,
}

/// The meaning of an [`Action`].
pub enum ActionView {
    Command { message: Seq<u8>, expected: Seq<u8> },
    WriteUnchecked { data: Seq<u8> },
    Finished(Result<ReplyView, PortError>),
}

impl View for Action {
    type V = ActionView;

    open spec fn view(&self) -> ActionView {
        match self {
            Action::Command { message, expected } => ActionView::Command {
                message: message@,
                expected: expected.spec_bytes(),
            },
            Action::WriteUnchecked { data } => ActionView::WriteUnchecked { data: data@ },
            Action::Finished(Ok(Reply::Done)) => ActionView::Finished(Ok(ReplyView::Done)),
            Action::Finished(Ok(Reply::Status(s))) => ActionView::Finished(Ok(ReplyView::Status(*s))),
            Action::Finished(Ok(Reply::Posted(_))) => ActionView::Finished(Ok(ReplyView::Posted)),
            Action::Finished(Err(e)) => ActionView::Finished(Err(*e)),
        }
    }
}

/// Where an operation of the device stands.
#[derive(Debug, Clone, Copy, PartialEq, Eq, Structural)]
pub enum Phase {
    Idle,
    /// `ip_status` waits for the reply to `AT+CIPSTATUS`.
    Status,
    /// `connect_to_wifi` waits for the reply to `AT`.
    Attention,
    /// `connect_to_wifi` waits for the reply to `AT+CWMODE=1`.
    Mode,
    /// `connect_to_wifi` waits for the reply to `AT+CWJAP`.
    Joining,
    /// `close_connection` waits for the reply to `AT+CIPCLOSE`.
    Closing,
    /// `establish_connection` waits for the reply to `AT+CIPSTART`.
    Connecting,
    /// `make_post_request` waits for the prompt of `AT+CIPSEND`.
    AwaitingPrompt,
    /// `make_post_request` waits for its message to be written.
    Sending,
}

/// The phases in which the device waits for the reply to a command.
pub open spec fn awaits_reply(p: Phase) -> bool {
    match p {
        Phase::Idle | Phase::Sending => false,
        _ => true,
    }
}

pub open spec fn cipstatus_text() -> Seq<u8> {
    "AT+CIPSTATUS".spec_bytes()
}

pub open spec fn attention_text() -> Seq<u8> {
    "AT".spec_bytes()
}

pub open spec fn mode_text() -> Seq<u8> {
    "AT+CWMODE=1".spec_bytes()
}

pub open spec fn join_text() -> Seq<u8> {
    "AT+CWJAP=\"JetBrains-Guest\",\"wifiusers90\"".spec_bytes()
}

pub open spec fn cipclose_text() -> Seq<u8> {
    "AT+CIPCLOSE".spec_bytes()
}

pub open spec fn cipstart_text() -> Seq<u8> {
    "AT+CIPSTART=\"TCP\",\"104.236.228.23\",8000".spec_bytes()
}

/// `AT+CIPSEND=<n>`
pub open spec fn cipsend_text(n: nat) -> Seq<u8> {
    "AT+CIPSEND=".spec_bytes() + decimal(n)
}

/// Law: the `AT+CIPSEND` command for `n` bytes is "AT+CIPSEND=" followed by a
/// run of decimal digits that reads as `n`, and nothing else.
pub proof fn law_cipsend_announces_n(n: nat)
    ensures
        ({
            let c = cipsend_text(n);
            let k = "AT+CIPSEND=".spec_bytes().len();
            &&& c.subrange(0, k as int) == "AT+CIPSEND=".spec_bytes()
            &&& c.len() > k
            &&& all_digits(c.subrange(k as int, c.len() as int))
            &&& digits_value(c.subrange(k as int, c.len() as int)) == n
        }),
{
    let p = "AT+CIPSEND=".spec_bytes();
    let c = cipsend_text(n);
    law_decimal_reads_back(n);
    assert(c.subrange(0, p.len() as int) =~= p);
    assert(c.subrange(p.len() as int, c.len() as int) =~= decimal(n));
}

/// The status that a reply buffer reports: its byte 7, when it starts with "STATUS:".
pub open spec fn status_of(buf: Seq<u8>) -> Option<u8> {
    let prefix = "STATUS:".spec_bytes();
    if buf.len() >= prefix.len() && buf.subrange(0, prefix.len() as int) == prefix && buf.len() > 7 {
        Some(buf[7])
    } else {
        None
    }
}

/// What taking a command reply does in each phase: the next phase and the next
/// action. `buf` is the reply buffer after the reply was read into it, `payload`
/// the message that `make_post_request` is to send.
pub open spec fn reply_step(p: Phase, buf: Seq<u8>, payload: Seq<u8>) -> (Phase, ActionView) {
    match p {
        Phase::Status => (
            Phase::Idle,
            ActionView::Finished(
                match status_of(buf) {
                    Some(s) => Ok(ReplyView::Status(s)),
                    None => Err(PortError::Error),
                },
            ),
        ),
        Phase::Attention => (
            Phase::Mode,
            ActionView::Command { message: mode_text(), expected: "OK".spec_bytes() },
        ),
        Phase::Mode => (
            Phase::Joining,
            ActionView::Command { message: join_text(), expected: "OK".spec_bytes() },
        ),
        Phase::AwaitingPrompt => (Phase::Sending, ActionView::WriteUnchecked { data: payload }),
        _ => (Phase::Idle, ActionView::Finished(Ok(ReplyView::Done))),
    }
}

proof fn lemma_status_literal()
    ensures
        "STATUS:".spec_bytes().len() == 7,
        "STATUS:".spec_bytes() == seq![83u8, 84u8, 65u8, 84u8, 85u8, 83u8, 58u8],
{
    reveal_strlit("STATUS:");
    assert(vstd::string::is_ascii("STATUS:"));
    vstd::string::is_ascii_spec_bytes("STATUS:");
    assert("STATUS:".spec_bytes() =~= seq![83u8, 84u8, 65u8, 84u8, 85u8, 83u8, 58u8]);
}

/// Reads the status byte from a reply buffer.
pub fn parse_ip_status(buf: &[u8]) -> (r: PortResult<u8>)
    ensures
        match status_of(buf@) {
            Some(s) => r == Ok::<u8, PortError>(s),
            None => r == Err::<u8, PortError>(PortError::Error),
        },
{
    proof {
        lemma_status_literal();
    }
    let prefix = "STATUS:".as_bytes();
    if buf.len() <= 7 {
        return Err(PortError::Error);
    }
    let mut k: usize = 0;
    while k < 7
        invariant
            prefix@ == "STATUS:".spec_bytes(),
            prefix@.len() == 7,
            buf@.len() > 7,
            k <= 7,
            forall|m: int| 0 <= m < k ==> buf@[m] == prefix@[m],
        decreases 7 - k,
    {
        if buf[k] != prefix[k] {
            assert(buf@.subrange(0, 7)[k as int] != prefix@[k as int]);
            return Err(PortError::Error);
        }
        k += 1;
    }
    assert(buf@.subrange(0, 7) =~= prefix@);
    Ok(buf[7])
}

/// The `AT+CIPSEND` command that announces `n` bytes.
pub fn cipsend_command(n: usize) -> (r: Vec<u8>)
    ensures
        r@ == cipsend_text(n as nat),
        r@.len() <= CIPSEND_CAPACITY,
{
    proof {
        reveal_strlit("AT+CIPSEND=");
        assert(vstd::string::is_ascii("AT+CIPSEND="));
        vstd::string::is_ascii_spec_bytes("AT+CIPSEND=");
        lemma_decimal_len_u64(n as u64);
    }
    let mut w = WriteBuf::new(vec![0u8; CIPSEND_CAPACITY]);
    let _ = w.write_str("AT+CIPSEND=");
    let _ = w.write_decimal(n as u64);
    w.written()
}

fn command(message: &str, expected: &'static str) -> (a: Action)
    ensures
        a@ == (ActionView::Command { message: message.spec_bytes(), expected: expected.spec_bytes() }),
{
    Action::Command { message: vstd::slice::slice_to_vec(message.as_bytes()), expected }
}

/// The host end of the dialogue with the WiFi module.
pub struct Device<T: Port> {
    /// The link to the module.
    pub port: T,
    buf: Vec<u8>,
    phase: Phase,
    payload: Vec<u8>,
}

impl<T: Port> Device<T> {
    /// The link to the module.
    pub closed spec fn link(&self) -> T {
        self.port
    }

    /// The buffer that command replies are read into.
    pub closed spec fn buffer(&self) -> Seq<u8> {
        self.buf@
    }

    /// Where the current operation stands.
    pub closed spec fn phase(&self) -> Phase {
        self.phase
    }

    /// The message that `make_post_request` is to send.
    pub closed spec fn payload(&self) -> Seq<u8> {
        self.payload@
    }

    pub open spec fn wf(&self) -> bool {
        self.buffer().len() == BUF_LEN
    }

    /// A device that talks over `port`, with a zeroed reply buffer.
    pub fn new(port: T) -> (d: Device<T>)
        ensures
            d.wf(),
            d.link() == port,
            d.buffer() == Seq::new(BUF_LEN as nat, |i: int| 0u8),
            d.phase() == Phase::Idle,
            d.payload() == Seq::<u8>::empty(),
    {
        let d = Device { port, buf: vec![0u8; BUF_LEN], phase: Phase::Idle, payload: Vec::new() };
        assert(d.buffer() =~= Seq::new(BUF_LEN as nat, |i: int| 0u8));
        d
    }

    /// Asks the module for its connection status (`AT+CIPSTATUS`).
    pub fn ip_status(&mut self) -> (a: Action)
        requires
            old(self).wf(),
        ensures
            final(self).wf(),
            final(self).link() == old(self).link(),
            final(self).buffer() == old(self).buffer(),
            final(self).payload() == old(self).payload(),
            final(self).phase() == Phase::Status,
            a@ == (ActionView::Command { message: cipstatus_text(), expected: "OK".spec_bytes() }),
    {
        self.phase = Phase::Status;
        command("AT+CIPSTATUS", "OK")
    }

    /// Joins the access point: `AT`, `AT+CWMODE=1`, then `AT+CWJAP`.
    pub fn connect_to_wifi(&mut self) -> (a: Action)
        requires
            old(self).wf(),
        ensures
            final(self).wf(),
            final(self).link() == old(self).link(),
            final(self).buffer() == old(self).buffer(),
            final(self).payload() == old(self).payload(),
            final(self).phase() == Phase::Attention,
            a@ == (ActionView::Command { message: attention_text(), expected: "OK".spec_bytes() }),
    {
        self.phase = Phase::Attention;
        command("AT", "OK")
    }

    /// Closes the TCP connection (`AT+CIPCLOSE`).
    pub fn close_connection(&mut self) -> (a: Action)
        requires
            old(self).wf(),
        ensures
            final(self).wf(),
            final(self).link() == old(self).link(),
            final(self).buffer() == old(self).buffer(),
            final(self).payload() == old(self).payload(),
            final(self).phase() == Phase::Closing,
            a@ == (ActionView::Command { message: cipclose_text(), expected: "CLOSED".spec_bytes() }),
    {
        self.phase = Phase::Closing;
        command("AT+CIPCLOSE", "CLOSED")
    }

    /// Opens the TCP connection to the server (`AT+CIPSTART`).
    pub fn establish_connection(&mut self) -> (a: Action)
        requires
            old(self).wf(),
        ensures
            final(self).wf(),
            final(self).link() == old(self).link(),
            final(self).buffer() == old(self).buffer(),
            final(self).payload() == old(self).payload(),
            final(self).phase() == Phase::Connecting,
            a@ == (ActionView::Command { message: cipstart_text(), expected: "OK".spec_bytes() }),
    {
        self.phase = Phase::Connecting;
        command("AT+CIPSTART=\"TCP\",\"104.236.228.23\",8000", "OK")
    }

    /// Sends `message` over the open connection: announces its length with
    /// `AT+CIPSEND`, waits for the prompt, then writes it.
    pub fn make_post_request(&mut self, message: &str) -> (a: Action)
        requires
            old(self).wf(),
        ensures
            final(self).wf(),
            final(self).link() == old(self).link(),
            final(self).buffer() == old(self).buffer(),
            final(self).payload() == message.spec_bytes(),
            final(self).phase() == Phase::AwaitingPrompt,
            a@ == (ActionView::Command {
                message: cipsend_text(message.spec_bytes().len()),
                expected: ">".spec_bytes(),
            }),
    {
        let bytes = message.as_bytes();
        let cmd = cipsend_command(bytes.len());
        self.payload = vstd::slice::slice_to_vec(bytes);
        self.phase = Phase::AwaitingPrompt;
        Action::Command { message: cmd, expected: ">" }
    }

    /// Takes the reply to the last command (what was read into the start of the
    /// reply buffer) and decides what comes next.
    pub fn on_reply(&mut self, reply: &[u8]) -> (a: Action)
        requires
            old(self).wf(),
            awaits_reply(old(self).phase()),
            reply@.len() <= BUF_LEN,
        ensures
            final(self).wf(),
            final(self).link() == old(self).link(),
            final(self).payload() == old(self).payload(),
            final(self).buffer() == merged(old(self).buffer(), reply@),
            final(self).phase() == reply_step(old(self).phase(), final(self).buffer(), old(self).payload()).0,
            a@ == reply_step(old(self).phase(), final(self).buffer(), old(self).payload()).1,
    {
        self.buf = merge(self.buf.as_slice(), reply);
        match self.phase {
            Phase::Status => {
                self.phase = Phase::Idle;
                match parse_ip_status(self.buf.as_slice()) {
                    Ok(s) => Action::Finished(Ok(Reply::Status(s))),
                    Err(e) => Action::Finished(Err(e)),
                }
            },
            Phase::Attention => {
                self.phase = Phase::Mode;
                command("AT+CWMODE=1", "OK")
            },
            Phase::Mode => {
                self.phase = Phase::Joining;
                command("AT+CWJAP=\"JetBrains-Guest\",\"wifiusers90\"", "OK")
            },
            Phase::AwaitingPrompt => {
                self.phase = Phase::Sending;
                Action::WriteUnchecked { data: vstd::slice::slice_to_vec(self.payload.as_slice()) }
            },
            _ => {
                self.phase = Phase::Idle;
                Action::Finished(Ok(Reply::Done))
            },
        }
    }

    /// The message of `make_post_request` has been written: the request is done.
    pub fn on_written(&mut self) -> (a: Action)
        requires
            old(self).wf(),
            old(self).phase() == Phase::Sending,
        ensures
            final(self).wf(),
            final(self).link() == old(self).link(),
            final(self).buffer() == old(self).buffer(),
            final(self).payload() == old(self).payload(),
            final(self).phase() == Phase::Idle,
            a@ == ActionView::Finished(Ok(ReplyView::Posted)),
    {
        self.phase = Phase::Idle;
        Action::Finished(Ok(Reply::Posted(Data)))
    }
}

/// How many more replies an operation waits for at most from each phase.
pub open spec fn phase_rank(p: Phase) -> nat {
    match p {
        Phase::Idle | Phase::Sending => 0,
        Phase::Status | Phase::Joining | Phase::Closing | Phase::Connecting | Phase::AwaitingPrompt => 1,
        Phase::Mode => 2,
        Phase::Attention => 3,
    }
}

/// Law: every reply moves the operation closer to its end (joining the access point
/// takes three replies, every other operation one).
pub proof fn law_replies_make_progress(p: Phase, buf: Seq<u8>, payload: Seq<u8>)
    requires
        awaits_reply(p),
    ensures
        phase_rank(reply_step(p, buf, payload).0) < phase_rank(p),
{
}

} // verus!
