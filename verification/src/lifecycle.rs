//! The single slot that holds the running asset server, and the status
//! that the launcher reports for it.
//!
//! The slot is a plain state machine. Whoever drives it owns the socket and
//! the worker behind a handle of its own type `W`, and tells the slot what
//! the worker's shutdown flag reads.

use vstd::prelude::*;
use crate::text::{append_chars, chars_of, joined_text, string_of};

verus! {

/// The character of a decimal digit.
pub open spec fn digit_char(d: nat) -> char {
    ((0x30 + d) as u8) as char
}

/// `n` written in decimal, without leading zeros.
pub open spec fn decimal(n: nat) -> Seq<char>
    decreases n,
{
    if n < 10 {
        seq![digit_char(n)]
    } else {
        decimal(n / 10).push(digit_char(n % 10))
    }
}

/// The address under which a server on `port` is reached.
pub open spec fn server_url(port: u16) -> Seq<char> {
    "http://127.0.0.1:"@ + decimal(port as nat) + "/"@
}

fn push_decimal(out: &mut Vec<char>, n: u16)
    ensures
        final(out)@ == old(out)@ + decimal(n as nat),
    decreases n,
{
    if n >= 10 {
        push_decimal(out, n / 10);
    }
    let d: u8 = (n % 10) as u8;
    out.push((0x30 + d) as char);
    assert(final(out)@ =~= old(out)@ + decimal(n as nat));
}

/// Writes the address under which a server on `port` is reached.
pub fn port_url(port: u16) -> (url: String)
    ensures
        url@ == server_url(port),
{
    let mut out = chars_of("http://127.0.0.1:");
    push_decimal(&mut out, port);
    let slash = chars_of("/");
    append_chars(&mut out, slash.as_slice());
    string_of(out.as_slice())
}

/// What the launcher reports about the asset server.
#[derive(Clone, Debug, PartialEq, Eq)]
pub struct WebglStatus {
    pub running: bool,
    pub url: Option<String>,
    pub port: Option<u16>,
}

/// A status, with its address as a sequence of characters.
pub struct StatusView {
    pub running: bool,
    pub url: Option<Seq<char>>,
    pub port: Option<u16>,
}

impl View for WebglStatus {
    type V = StatusView;

    open spec fn view(&self) -> StatusView {
        StatusView {
            running: self.running,
            url: match self.url {
                Some(url) => Some(url@),
                None => None,
            },
            port: self.port,
        }
    }
}

/// The status of a server bound to `port` whose shutdown flag reads
/// `running`.
pub open spec fn handle_status(port: u16, running: bool) -> StatusView {
    StatusView { running, url: Some(server_url(port)), port: Some(port) }
}

/// The status when no server is there.
pub open spec fn stopped_status() -> StatusView {
    StatusView { running: false, url: None, port: None }
}

/// Reports a server bound to `port` whose shutdown flag reads `running`.
pub fn webgl_status_from_handle(port: u16, running: bool) -> (status: WebglStatus)
    ensures
        status@ == handle_status(port, running),
{
    WebglStatus { running, url: Some(port_url(port)), port: Some(port) }
}

/// Reports that no server is there.
pub fn webgl_status_stopped() -> (status: WebglStatus)
    ensures
        status@ == stopped_status(),
{
    WebglStatus { running: false, url: None, port: None }
}

/// The asset server in the slot: the port it is bound to, and the caller's
/// handle on the worker that serves it.
pub struct ServerHandle<W> {
    pub port: u16,
    pub worker: W,
}

/// The worker of the handle in `slot`, if there is one.
pub open spec fn slot_worker<W>(slot: Option<ServerHandle<W>>) -> Option<W> {
    match slot {
        Some(handle) => Some(handle.worker),
        None => None,
    }
}

/// Whether `slot` holds a server that still serves: there is a handle, and
/// its shutdown flag reads `running`.
pub open spec fn is_live<W>(slot: Option<ServerHandle<W>>, running: bool) -> bool {
    slot is Some && running
}

/// The status to report for `slot`: a snapshot of the port and the flag of
/// the handle in it, and "stopped" for an empty slot.
pub open spec fn status_of<W>(slot: Option<ServerHandle<W>>, running: bool) -> StatusView {
    match slot {
        Some(handle) => handle_status(handle.port, running),
        None => stopped_status(),
    }
}

/// The slot after a look at it: a live handle stays, one whose worker has
/// stopped is taken out.
pub open spec fn slot_after_look<W>(slot: Option<ServerHandle<W>>, running: bool) -> Option<
    ServerHandle<W>,
> {
    if is_live(slot, running) {
        slot
    } else {
        None
    }
}

/// The worker that a look at `slot` takes out of it: that of a handle whose
/// worker has stopped.
pub open spec fn worker_left<W>(slot: Option<ServerHandle<W>>, running: bool) -> Option<W> {
    if is_live(slot, running) {
        None
    } else {
        slot_worker(slot)
    }
}

/// A slot that holds a server on `port`.
pub open spec fn slot_with<W>(port: u16, worker: W) -> Option<ServerHandle<W>> {
    Some(ServerHandle { port, worker })
}

/// What `start` finds in the slot.
pub enum StartDecision<W> {
    /// A server is live: this is its status, and nothing is to be done.
    AlreadyRunning(WebglStatus),
    /// No server is live: one is to be launched. Holds the worker of a
    /// server that has stopped, if one was left in the slot.
    Launch(Option<W>),
}

/// The single slot for the asset server.
pub struct ServerRegistry<W> {
    slot: Option<ServerHandle<W>>,
}

impl<W> View for ServerRegistry<W> {
    type V = Option<ServerHandle<W>>;

    closed spec fn view(&self) -> Option<ServerHandle<W>> {
        self.slot
    }
}

impl<W> ServerRegistry<W> {
    /// An empty slot.
    pub fn new() -> (registry: Self)
        ensures
            registry@ is None,
    {
        ServerRegistry { slot: None }
    }

    /// The handle in the slot, for reading its shutdown flag.
    pub fn handle(&self) -> (handle: Option<&ServerHandle<W>>)
        ensures
            handle.is_some() == self@.is_some(),
            handle matches Some(h) ==> self@ == Some(*h),
    {
        self.slot.as_ref()
    }

    /// Reports the server, given what the shutdown flag of the handle in the
    /// slot reads. A handle whose worker has stopped is reported one last
    /// time and taken out of the slot, and its worker handed back.
    pub fn status(&mut self, running: bool) -> (r: (WebglStatus, Option<W>))
        ensures
            r.0@ == status_of(old(self)@, running),
            final(self)@ == slot_after_look(old(self)@, running),
            r.1 == worker_left(old(self)@, running),
    {
        match self.slot.take() {
            Some(handle) => {
                let status = webgl_status_from_handle(handle.port, running);
                if running {
                    self.slot = Some(handle);
                    (status, None)
                } else {
                    (status, Some(handle.worker))
                }
            },
            None => (webgl_status_stopped(), None),
        }
    }

    /// Decides what a request to start the server leads to, given what the
    /// shutdown flag of the handle in the slot reads. While a server is live
    /// the slot stays as it is; otherwise it is emptied for the launch.
    pub fn start(&mut self, running: bool) -> (decision: StartDecision<W>)
        ensures
            final(self)@ == slot_after_look(old(self)@, running),
            decision matches StartDecision::AlreadyRunning(status) ==> is_live(old(self)@, running)
                && status@ == status_of(old(self)@, running),
            decision matches StartDecision::Launch(left) ==> !is_live(old(self)@, running) && left
                == slot_worker(old(self)@),
    {
        match self.slot.take() {
            Some(handle) => {
                if running {
                    let status = webgl_status_from_handle(handle.port, true);
                    self.slot = Some(handle);
                    StartDecision::AlreadyRunning(status)
                } else {
                    StartDecision::Launch(Some(handle.worker))
                }
            },
            None => StartDecision::Launch(None),
        }
    }

    /// Puts a server that has just been launched into the slot and reports
    /// it. Hands back the worker that the slot held before, if any.
    pub fn install(&mut self, port: u16, worker: W) -> (r: (WebglStatus, Option<W>))
        ensures
            final(self)@ == slot_with(port, worker),
            r.0@ == handle_status(port, true),
            r.1 == slot_worker(old(self)@),
    {
        let before = self.slot.take();
        self.slot = Some(ServerHandle { port, worker });
        let left = match before {
            Some(handle) => Some(handle.worker),
            None => None,
        };
        (webgl_status_from_handle(port, true), left)
    }

    /// Empties the slot and reports "stopped". Hands back the worker to shut
    /// down, if there was one.
    pub fn stop(&mut self) -> (r: (WebglStatus, Option<W>))
        ensures
            final(self)@ is None,
            r.0@ == stopped_status(),
            r.1 == slot_worker(old(self)@),
    {
        let left = match self.slot.take() {
            Some(handle) => Some(handle.worker),
            None => None,
        };
        (webgl_status_stopped(), left)
    }
}

/// Starting twice without stopping in between reports the same server both
/// times: the second start finds the handle that the first one put into the
/// slot, leaves it there, and answers with the status that the first one
/// returned.
pub proof fn lemma_second_start_reports_first<W>(port: u16, worker: W)
    ensures
        is_live(slot_with(port, worker), true),
        slot_after_look(slot_with(port, worker), true) == slot_with(port, worker),
        status_of(slot_with(port, worker), true) == handle_status(port, true),
{
}

/// A server is never reported as running once its worker has stopped, and
/// the look that finds it so leaves the slot empty: from then on the status
/// is "stopped", whatever the flag is said to read.
pub proof fn lemma_stopped_worker_leaves_no_server<W>(
    slot: Option<ServerHandle<W>>,
    later_flag: bool,
)
    ensures
        !status_of(slot, false).running,
        slot_after_look(slot, false) is None,
        status_of(slot_after_look(slot, false), later_flag) == stopped_status(),
{
}

/// Why the asset server could not be started or stopped.
#[derive(Clone, Debug, PartialEq, Eq)]
pub enum ServerError {
    /// The lock on the shared state could not be taken.
    StateLock,
    /// No directory with an entry file was found.
    RootNotFound,
    /// No loopback port could be bound; holds the reason.
    Bind(String),
    /// The bound port could not be read; holds the reason.
    LocalAddress(String),
    /// The server could not be set up on the socket; holds the reason.
    Listen(String),
}

impl ServerError {
    /// The message that the caller is shown.
    pub open spec fn text(self) -> Seq<char> {
        match self {
            ServerError::StateLock => "state lock failed"@,
            ServerError::RootNotFound =>
                "WebGL build not found. Expected folder `breach_it/` with `index.html`."@,
            ServerError::Bind(reason) => "failed to bind localhost port: "@ + reason@,
            ServerError::LocalAddress(reason) => "failed to get bound port: "@ + reason@,
            ServerError::Listen(reason) => "failed to start server: "@ + reason@,
        }
    }

    /// Writes the message that the caller is shown.
    pub fn message(&self) -> (message: String)
        ensures
            message@ == self.text(),
    {
        match self {
            ServerError::StateLock => "state lock failed".to_owned(),
            ServerError::RootNotFound => {
                "WebGL build not found. Expected folder `breach_it/` with `index.html`.".to_owned()
            },
            ServerError::Bind(reason) => joined_text("failed to bind localhost port: ", reason.as_str()),
            ServerError::LocalAddress(reason) => joined_text("failed to get bound port: ", reason.as_str()),
            ServerError::Listen(reason) => joined_text("failed to start server: ", reason.as_str()),
        }
    }
}

} // verus!
