//! The decisions around the `llama-server` process: its log, its status and
//! its health.
use crate::text::{
    contains_str, has_substring, i64_to_string, join_strings, joined, signed_decimal,
    string_from_utf8_lossy, u64_to_string, decimal, utf8_lossy,
};
use vstd::prelude::*;
use vstd::string::*;

verus! {

/// Why the server could not be started.
#[derive(Debug, Clone)]
pub enum ServerError {
    /// Spawning the process failed; the text is the system's reason.
    StartFailed(String),
    /// The executable does not exist at the configured path.
    ExeNotFound(String),
}

/// The text shown for a [`ServerError`].
pub open spec fn server_error_text(e: ServerError) -> Seq<char> {
    match e {
        ServerError::StartFailed(m) => "Failed to start server: "@ + m@,
        ServerError::ExeNotFound(p) => "Executable not found: "@ + p@,
    }
}

impl ServerError {
    /// The text shown for this error.
    pub fn message(&self) -> (r: String)
        ensures
            r@ == server_error_text(*self),
    {
        match self {
            ServerError::StartFailed(m) => String::from_str("Failed to start server: ").concat(
                m.as_str(),
            ),
            ServerError::ExeNotFound(p) => String::from_str("Executable not found: ").concat(
                p.as_str(),
            ),
        }
    }
}

/// The state of the server process.
#[derive(Debug, Clone, PartialEq)]
pub enum ServerStatus {
    Stopped,
    Running,
    Healthy,
    Error(String),
}

/// The mathematical model of a [`ServerStatus`].
pub enum StatusView {
    Stopped,
    Running,
    Healthy,
    Error(Seq<char>),
}

impl View for ServerStatus {
    type V = StatusView;

    open spec fn view(&self) -> StatusView {
        match self {
            ServerStatus::Stopped => StatusView::Stopped,
            ServerStatus::Running => StatusView::Running,
            ServerStatus::Healthy => StatusView::Healthy,
            ServerStatus::Error(m) => StatusView::Error(m@),
        }
    }
}

/// The most lines the log keeps.
pub const LOG_CAPACITY: usize = 500;

/// The last `n` elements of `s` (all of them when there are fewer).
pub open spec fn newest<T>(s: Seq<T>, n: nat) -> Seq<T> {
    if s.len() > n {
        s.skip(s.len() - n)
    } else {
        s
    }
}

/// The server's output, newest last, at most [`LOG_CAPACITY`] lines.
pub struct LogBuffer {
    lines: Vec<String>,
    max_lines: usize,
}

impl View for LogBuffer {
    type V = Seq<String>;

    closed spec fn view(&self) -> Seq<String> {
        self.lines@
    }
}

impl LogBuffer {
    #[verifier::type_invariant]
    spec fn within_capacity(self) -> bool {
        &&& self.max_lines == LOG_CAPACITY
        &&& self.lines@.len() <= LOG_CAPACITY
    }

    /// An empty log.
    pub fn new() -> (r: Self)
        ensures
            r@ == Seq::<String>::empty(),
    {
        LogBuffer { lines: Vec::new(), max_lines: LOG_CAPACITY }
    }

    /// Appends a line, dropping the oldest lines beyond the capacity.
    pub fn push(&mut self, line: String)
        ensures
            final(self)@ == newest(old(self)@.push(line), LOG_CAPACITY as nat),
            final(self)@.len() <= LOG_CAPACITY,
    {
        proof {
            use_type_invariant(&*self);
        }
        let mut lines: Vec<String> = Vec::new();
        std::mem::swap(&mut lines, &mut self.lines);
        let ghost before = lines@;
        lines.push(line);
        if lines.len() > self.max_lines {
            lines.remove(0);
            assert(lines@ =~= before.push(line).skip(1));
        }
        self.lines = lines;
    }

    /// The lines, oldest first.
    pub fn lines(&self) -> (r: &[String])
        ensures
            r@ == self@,
    {
        self.lines.as_slice()
    }

    /// Removes every line.
    pub fn clear(&mut self)
        ensures
            final(self)@ == Seq::<String>::empty(),
    {
        proof {
            use_type_invariant(&*self);
        }
        let mut empty: Vec<String> = Vec::new();
        std::mem::swap(&mut empty, &mut self.lines);
    }
}

/// A log never holds more than its capacity, and pushing keeps the newest
/// lines in their order with the new line last.
pub proof fn law_log_keeps_newest(log: LogBuffer, line: String)
    ensures
        newest(log@.push(line), LOG_CAPACITY as nat).len() <= LOG_CAPACITY,
        newest(log@.push(line), LOG_CAPACITY as nat).last() == line,
        log@.len() < LOG_CAPACITY ==> newest(log@.push(line), LOG_CAPACITY as nat) == log@.push(
            line,
        ),
{
}

/// The lines a log holds after `lines` were pushed onto a log holding
/// `start`, one by one in order.
pub open spec fn after_pushes(start: Seq<String>, lines: Seq<String>) -> Seq<String>
    decreases lines.len(),
{
    if lines.len() == 0 {
        start
    } else {
        newest(after_pushes(start, lines.drop_last()).push(lines.last()), LOG_CAPACITY as nat)
    }
}

proof fn lemma_newest_push<T>(s: Seq<T>, x: T, n: nat)
    requires
        n > 0,
    ensures
        newest(newest(s, n).push(x), n) == newest(s.push(x), n),
{
    if s.len() > n {
        assert(newest(s, n).push(x).skip(1) =~= s.push(x).skip(s.len() + 1 - n));
    } else if s.len() == n {
        assert(newest(s, n).push(x).skip(1) =~= s.push(x).skip(1));
    }
}

/// A new or cleared log holds, after `lines` are pushed one by one, the last
/// `LOG_CAPACITY` of them (all of them when fewer were pushed), in the order
/// they were pushed.
pub proof fn law_log_holds_last_pushed(lines: Seq<String>)
    ensures
        after_pushes(Seq::empty(), lines) == newest(lines, LOG_CAPACITY as nat),
    decreases lines.len(),
{
    if lines.len() > 0 {
        law_log_holds_last_pushed(lines.drop_last());
        lemma_newest_push(lines.drop_last(), lines.last(), LOG_CAPACITY as nat);
        assert(lines.drop_last().push(lines.last()) =~= lines);
    }
}

/// What waiting on the process reported.
#[derive(Debug, Clone, Copy, PartialEq, Eq, Structural)]
pub enum WaitOutcome {
    /// The process has ended; `success` when it exited with status 0.
    Exited { success: bool, code: Option<i32> },
    /// The process is still running.
    StillRunning,
    /// The status could not be read.
    Failed,
}

/// `Option<i32>` as `{:?}` prints it.
pub open spec fn code_debug(code: Option<i32>) -> Seq<char> {
    match code {
        Some(c) => "Some("@ + signed_decimal(c as int) + ")"@,
        None => "None"@,
    }
}

fn code_debug_string(code: Option<i32>) -> (r: String)
    ensures
        r@ == code_debug(code),
{
    match code {
        Some(c) => {
            let digits = i64_to_string(c as i64);
            String::from_str("Some(").concat(digits.as_str()).concat(")")
        },
        None => String::from_str("None"),
    }
}

/// The status for a wait outcome (`None`: no process), and the exit code to
/// record, if the process has ended.
pub open spec fn status_of(outcome: Option<WaitOutcome>) -> (StatusView, Option<Option<i32>>) {
    match outcome {
        None => (StatusView::Stopped, None),
        Some(WaitOutcome::Exited { success, code }) => (
            if success {
                StatusView::Stopped
            } else {
                StatusView::Error("Exit code: "@ + code_debug(code))
            },
            Some(code),
        ),
        Some(WaitOutcome::StillRunning) => (StatusView::Running, None),
        Some(WaitOutcome::Failed) => (StatusView::Error("Process error"@), None),
    }
}

/// The status of the process from what waiting on it reported; with the
/// exit code to record when it has ended.
pub fn status_from_wait(outcome: Option<WaitOutcome>) -> (r: (ServerStatus, Option<Option<i32>>))
    ensures
        (r.0@, r.1) == status_of(outcome),
{
    match outcome {
        None => (ServerStatus::Stopped, None),
        Some(WaitOutcome::Exited { success, code }) => {
            if success {
                (ServerStatus::Stopped, Some(code))
            } else {
                let text = code_debug_string(code);
                (ServerStatus::Error(String::from_str("Exit code: ").concat(text.as_str())), Some(code))
            }
        },
        Some(WaitOutcome::StillRunning) => (ServerStatus::Running, None),
        Some(WaitOutcome::Failed) => (ServerStatus::Error(String::from_str("Process error")), None),
    }
}

/// The status that a reply to the health request shows: `Healthy` when the
/// start of the reply, decoded as UTF-8, contains `200`.
pub open spec fn health_of(reply: Seq<u8>) -> StatusView {
    if has_substring(utf8_lossy(reply), "200"@) {
        StatusView::Healthy
    } else {
        StatusView::Running
    }
}

/// The status a reply to the health request shows.
pub fn health_from_response(reply: &[u8]) -> (r: ServerStatus)
    ensures
        r@ == health_of(reply@),
{
    let head = string_from_utf8_lossy(reply);
    if contains_str(head.as_str(), "200") {
        ServerStatus::Healthy
    } else {
        ServerStatus::Running
    }
}

/// `host:port`, the address the health request goes to.
pub fn health_address(host: &String, port: u16) -> (r: String)
    ensures
        r@ == host@ + ":"@ + decimal(port as nat),
{
    let digits = u64_to_string(port as u64);
    host.clone().concat(":").concat(digits.as_str())
}

/// The HTTP request for the server's health endpoint.
pub fn health_request(addr: &String) -> (r: String)
    ensures
        r@ == "GET /health HTTP/1.1\r\nHost: "@ + addr@ + "\r\nConnection: close\r\n\r\n"@,
{
    String::from_str("GET /health HTTP/1.1\r\nHost: ").concat(addr.as_str()).concat(
        "\r\nConnection: close\r\n\r\n",
    )
}

/// The first log line of a launch: the executable and its arguments.
pub fn start_log_line(exe: &String, args: &Vec<String>) -> (r: String)
    ensures
        r@ == "Starting: "@ + exe@ + " "@ + joined(args@.map_values(|s: String| s@), " "@),
{
    let tail = join_strings(args, " ");
    String::from_str("Starting: ").concat(exe.as_str()).concat(" ").concat(tail.as_str())
}

} // verus!
