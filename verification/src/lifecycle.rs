//! Locking the desktop once the last viewer has been gone long enough.
//!
//! A streamed desktop has no lid to close and no seat to lock from. When the last consumer
//! disconnects the session is still logged in, and whoever reconnects lands straight in it.
//! The lock runs inside the nested compositor, so it is dispatched over that compositor's IPC
//! socket, which lies in a directory per instance under the runtime directory.
//!
//! Nothing here may end the process: it is the Wayland parent of the whole desktop, and losing
//! a lock is not worth losing the session that somebody is still watching. Every failure
//! becomes a line for the log.

use vstd::prelude::*;

use crate::clock::{Duration, Instant, NANOS_PER_SEC};
use crate::text::{
    chars_of, contains, debug_quoted, has_part, is_digit, opt_str, parse_unsigned, quoted,
    same_text, starts_with, trim, trimmed, unsigned, unsigned_up_to, without_plus,
};

verus! {

/// The lock command dispatched into the compositor.
pub const LOCK_COMMAND: &'static str = "hyprlock";

/// When to lock after the last consumer leaves.
#[derive(Debug, Clone, Copy, PartialEq, Eq, Structural)]
pub struct LockPolicy {
    pub after: Duration,
}

/// What the setting for the idle time asks for.
pub enum LockSetting {
    Off,
    /// Lock after that many seconds, at least one.
    After(nat),
    /// Not a number of seconds.
    Malformed,
}

/// How the setting reads: unset, blank, `off` and zero switch the lock off; a number of seconds
/// arms it.
pub open spec fn lock_setting(raw: Option<Seq<char>>) -> LockSetting {
    match raw {
        None => LockSetting::Off,
        Some(s) => {
            let word = trimmed(s);
            if word.len() == 0 || word == "off"@ {
                LockSetting::Off
            } else {
                match unsigned_up_to(word, u64::MAX as nat) {
                    None => LockSetting::Malformed,
                    Some(n) => if n == 0 {
                        LockSetting::Off
                    } else {
                        LockSetting::After(n)
                    },
                }
            }
        },
    }
}

/// The warning for a setting that is not a number of seconds, given its quoted word.
pub open spec fn malformed_warning(quoted_word: Seq<char>) -> Seq<char> {
    "lock: CSTREAM_LOCK_AFTER="@ + quoted_word
        + " is not a number of seconds — ignoring, the desktop will NOT auto-lock"@
}

impl LockPolicy {
    /// Reads the setting, `raw`; `None` where it is unset.
    ///
    /// Opt-in: locking is a visible action on somebody's session.
    pub fn from_env(raw: Option<&str>) -> (r: Option<LockPolicy>)
        ensures
            match lock_setting(opt_str(raw)) {
                LockSetting::After(secs) => r matches Some(p) && p.after.nanos == secs
                    * NANOS_PER_SEC,
                _ => r is None,
            },
    {
        let raw = match raw {
            Some(s) => s,
            None => {
                return None;
            },
        };
        let word = trim(raw);
        if word.is_empty() || same_text(word, "off") {
            return None;
        }
        match parse_unsigned(word, u64::MAX) {
            None => None,
            Some(secs) => if secs == 0 {
                None
            } else {
                Some(LockPolicy { after: Duration::from_secs(secs) })
            },
        }
    }
}

/// The warning that the setting `raw` calls for: a malformed value must not silently mean
/// "never lock".
pub fn lock_warning(raw: Option<&str>) -> (r: Option<String>)
    ensures
        r is Some <==> lock_setting(opt_str(raw)) is Malformed,
        r matches Some(line) ==> raw is Some && line@ == malformed_warning(
            quoted(trimmed(raw->0@)),
        ),
{
    let raw = match raw {
        Some(s) => s,
        None => {
            return None;
        },
    };
    let word = trim(raw);
    if word.is_empty() || same_text(word, "off") || parse_unsigned(word, u64::MAX).is_some() {
        return None;
    }
    Some(malformed_warning_line(debug_quoted(word).as_str()))
}

/// The warning for a setting that is not a number of seconds, given its quoted word.
pub fn malformed_warning_line(quoted_word: &str) -> (r: String)
    ensures
        r@ == malformed_warning(quoted_word@),
{
    let mut r = "lock: CSTREAM_LOCK_AFTER=".to_owned();
    r.append(quoted_word);
    r.append(" is not a number of seconds — ignoring, the desktop will NOT auto-lock");
    r
}

/// What can go wrong on the way to the compositor's socket.
#[derive(Debug, PartialEq, Eq)]
pub enum LifecycleError {
    /// The directory of the instances could not be listed.
    Unreadable { base: String, cause: String },
    /// No instance has a socket.
    NoSocket { base: String },
}

pub enum LifecycleErrorView {
    Unreadable { base: Seq<char>, cause: Seq<char> },
    NoSocket { base: Seq<char> },
}

impl View for LifecycleError {
    type V = LifecycleErrorView;

    open spec fn view(&self) -> LifecycleErrorView {
        match self {
            LifecycleError::Unreadable { base, cause } => LifecycleErrorView::Unreadable {
                base: base@,
                cause: cause@,
            },
            LifecycleError::NoSocket { base } => LifecycleErrorView::NoSocket { base: base@ },
        }
    }
}

impl LifecycleErrorView {
    pub open spec fn message(self) -> Seq<char> {
        match self {
            LifecycleErrorView::Unreadable { base, cause } => "reading "@ + base
                + " — is Hyprland running?: "@ + cause,
            LifecycleErrorView::NoSocket { base } => "no .socket.sock under "@ + base,
        }
    }
}

impl LifecycleError {
    /// The error in one line, its cause last.
    pub fn message(&self) -> (r: String)
        ensures
            r@ == self@.message(),
    {
        match self {
            LifecycleError::Unreadable { base, cause } => {
                let mut r = "reading ".to_owned();
                r.append(base.as_str());
                r.append(" — is Hyprland running?: ");
                r.append(cause.as_str());
                r
            },
            LifecycleError::NoSocket { base } => {
                let mut r = "no .socket.sock under ".to_owned();
                r.append(base.as_str());
                r
            },
        }
    }
}

/// The path of `name` in the directory `dir`.
pub open spec fn path_in(dir: Seq<char>, name: Seq<char>) -> Seq<char> {
    if dir.len() == 0 || dir.last() == '/' {
        dir + name
    } else {
        dir + "/"@ + name
    }
}

/// The path of `name`, which is relative, in the directory `dir`.
pub fn join_path(dir: &str, name: &str) -> (r: String)
    ensures
        r@ == path_in(dir@, name@),
{
    let chars = chars_of(dir);
    let mut r = dir.to_owned();
    if !(chars.len() == 0 || chars[chars.len() - 1] == '/') {
        r.append("/");
    }
    r.append(name);
    r
}

/// An entry of the directory that holds one directory per compositor instance.
#[derive(Debug, PartialEq, Eq)]
pub struct InstanceDir {
    pub name: String,
    /// Whether `.socket.sock` exists in it.
    pub has_socket: bool,
    /// When it was last modified, in nanoseconds since the epoch, if that could be read.
    pub modified: Option<i128>,
}

impl InstanceDir {
    /// An instance that can be addressed and dated.
    pub open spec fn usable(self) -> bool {
        self.has_socket && self.modified is Some
    }
}

/// `i` is the usable entry that was modified last, the later in the list among equals.
pub open spec fn is_newest(entries: Seq<InstanceDir>, i: int) -> bool {
    &&& 0 <= i < entries.len()
    &&& entries[i].usable()
    &&& forall|j: int|
        #![trigger entries[j]]
        0 <= j < entries.len() && entries[j].usable() ==> entries[j].modified->0
            < entries[i].modified->0 || (entries[j].modified->0 == entries[i].modified->0 && j
            <= i)
}

pub open spec fn any_usable(entries: Seq<InstanceDir>) -> bool {
    exists|i: int| 0 <= i < entries.len() && (#[trigger] entries[i]).usable()
}

/// The directory of the compositor's instances.
pub open spec fn instances_dir(runtime_dir: Seq<char>) -> Seq<char> {
    path_in(runtime_dir, "hypr"@)
}

/// The socket of the instance of that name.
pub open spec fn socket_of(runtime_dir: Seq<char>, instance: Seq<char>) -> Seq<char> {
    path_in(path_in(instances_dir(runtime_dir), instance), ".socket.sock"@)
}

/// `found` is what a listing of the instances leads to: the socket of the newest usable one.
pub open spec fn discovers(
    runtime_dir: Seq<char>,
    listing: Result<Vec<InstanceDir>, String>,
    found: Result<HyprIpc, LifecycleError>,
) -> bool {
    match listing {
        Err(cause) => found matches Err(e) && e@ == (LifecycleErrorView::Unreadable {
            base: instances_dir(runtime_dir),
            cause: cause@,
        }),
        Ok(entries) => if any_usable(entries@) {
            found matches Ok(ipc) && exists|i: int|
                #[trigger] is_newest(entries@, i) && ipc.socket@ == socket_of(
                    runtime_dir,
                    entries@[i].name@,
                )
        } else {
            found matches Err(e) && e@ == (LifecycleErrorView::NoSocket {
                base: instances_dir(runtime_dir),
            })
        },
    }
}

/// The request that has the compositor run `command`.
///
/// The dispatcher is `exec_raw`: the command is a fixed binary, and raw exec avoids any shell
/// interpretation of it.
pub open spec fn lock_request(command: Seq<char>) -> Seq<char> {
    "dispatch hl.dsp.exec_raw(\""@ + command + "\")"@
}

/// The compositor's IPC socket, located under the runtime directory that this process owns.
#[derive(Debug, PartialEq, Eq)]
pub struct HyprIpc {
    pub socket: String,
}

impl Clone for HyprIpc {
    fn clone(&self) -> (r: HyprIpc)
        ensures
            r.socket@ == self.socket@,
    {
        HyprIpc { socket: self.socket.clone() }
    }
}

impl HyprIpc {
    /// Finds `<runtime_dir>/hypr/<instance>/.socket.sock`, given what listing the directory
    /// `<runtime_dir>/hypr` gave: its entries, or the cause of the failure.
    ///
    /// A directory without a socket is left out. Of several the newest is taken, because a stale
    /// directory from a crashed instance outlives it.
    pub fn discover(runtime_dir: &str, listing: Result<Vec<InstanceDir>, String>) -> (r: Result<
        HyprIpc,
        LifecycleError,
    >)
        ensures
            discovers(runtime_dir@, listing, r),
    {
        let base = join_path(runtime_dir, "hypr");
        let entries = match listing {
            Ok(entries) => entries,
            Err(cause) => {
                return Err(LifecycleError::Unreadable { base, cause });
            },
        };
        let mut newest: Option<(usize, i128)> = None;
        let mut i: usize = 0;
        while i < entries.len()
            invariant
                i <= entries.len(),
                newest is None ==> forall|j: int|
                    0 <= j < i ==> !(#[trigger] entries@[j]).usable(),
                newest matches Some(best) ==> best.0 < i && entries@[best.0 as int].modified
                    == Some(best.1) && is_newest(entries@.take(i as int), best.0 as int),
            decreases entries.len() - i,
        {
            let ghost before = newest;
            if entries[i].has_socket {
                if let Some(t) = entries[i].modified {
                    let later = match newest {
                        None => true,
                        Some((_, best)) => t >= best,
                    };
                    if later {
                        newest = Some((i, t));
                    }
                }
            }
            proof {
                let old_part = entries@.take(i as int);
                let new_part = entries@.take(i + 1);
                assert(forall|j: int| 0 <= j < i ==> old_part[j] == #[trigger] new_part[j]);
                assert(new_part[i as int] == entries@[i as int]);
            }
            i = i + 1;
        }
        assert(entries@.take(i as int) == entries@);
        match newest {
            Some((best, _)) => {
                assert(entries@[best as int].usable());
                let dir = join_path(base.as_str(), entries[best].name.as_str());
                Ok(HyprIpc { socket: join_path(dir.as_str(), ".socket.sock") })
            },
            None => Err(LifecycleError::NoSocket { base }),
        }
    }

    /// Has `send` carry the lock request to this socket, and returns the compositor's reply, so
    /// that a caller can tell `ok` from an error.
    ///
    /// `send` is given the path of the socket and the request.
    pub fn lock<F: FnOnce(&str, &str) -> Result<String, String>>(
        &self,
        command: &str,
        send: F,
    ) -> (r: Result<String, String>)
        requires
            forall|socket: &str, request: &str|
                socket@ == self.socket@ && request@ == lock_request(command@) ==> call_requires(
                    send,
                    (socket, request),
                ),
        ensures
            exists|socket: &str, request: &str|
                socket@ == self.socket@ && request@ == lock_request(command@)
                    && #[trigger] call_ensures(send, (socket, request), r),
    {
        let request = lock_request_text(command);
        send(self.socket.as_str(), request.as_str())
    }

    /// Has `send` carry the request for [`LOCK_COMMAND`] to this socket, and returns the
    /// compositor's reply.
    pub fn lock_desktop<F: FnOnce(&str, &str) -> Result<String, String>>(&self, send: F) -> (r:
        Result<String, String>)
        requires
            forall|socket: &str, request: &str|
                socket@ == self.socket@ && request@ == lock_request(LOCK_COMMAND@)
                    ==> call_requires(send, (socket, request)),
        ensures
            exists|socket: &str, request: &str|
                socket@ == self.socket@ && request@ == lock_request(LOCK_COMMAND@)
                    && #[trigger] call_ensures(send, (socket, request), r),
    {
        self.lock(LOCK_COMMAND, send)
    }
}

/// The request that has the compositor run `command`.
pub fn lock_request_text(command: &str) -> (r: String)
    ensures
        r@ == lock_request(command@),
{
    let mut r = "dispatch hl.dsp.exec_raw(\"".to_owned();
    r.append(command);
    r.append("\")");
    r
}

/// A reply means that the dispatch ran: it is not blank, not an error, and not the complaint
/// that a dispatcher does not exist.
pub open spec fn accepted(reply: Seq<char>) -> bool {
    let r = trimmed(reply);
    r.len() > 0 && !"error"@.is_prefix_of(r) && !has_part(r, "nil value"@)
}

/// Whether a reply from [`HyprIpc::lock`] actually means that it ran.
pub fn dispatch_accepted(reply: &str) -> (r: bool)
    ensures
        r == accepted(reply@),
{
    let reply = trim(reply);
    !reply.is_empty() && !starts_with(reply, "error") && !contains(reply, "nil value")
}

/// When to lock, as a state machine over consumer arrivals and departures.
#[derive(Debug)]
pub struct LockTracker {
    consumers: usize,
    /// When the count last reached zero. `None` while anybody is watching.
    zero_since: Option<Instant>,
    /// Set once the lock has fired for this idle period, so that it fires once and not at every
    /// tick: a lock dispatched again and again would fight the user typing their password.
    locked: bool,
}

pub struct TrackerView {
    pub consumers: nat,
    pub zero_since: Option<Instant>,
    pub locked: bool,
}

impl View for LockTracker {
    type V = TrackerView;

    closed spec fn view(&self) -> TrackerView {
        TrackerView {
            consumers: self.consumers as nat,
            zero_since: self.zero_since,
            locked: self.locked,
        }
    }
}

impl TrackerView {
    pub open spec fn initial() -> TrackerView {
        TrackerView { consumers: 0, zero_since: None, locked: false }
    }

    /// A countdown runs only while nobody watches, and the lock has fired only in a countdown.
    pub open spec fn valid(self) -> bool {
        &&& self.zero_since is Some ==> self.consumers == 0
        &&& self.locked ==> self.zero_since is Some
    }

    pub open spec fn added(self) -> TrackerView {
        TrackerView { consumers: self.consumers + 1, zero_since: None, locked: false }
    }

    /// After a departure. One that comes while nobody watches did not bring the count to zero, and
    /// changes nothing.
    pub open spec fn removed(self, now: Instant) -> TrackerView {
        if self.consumers == 0 {
            self
        } else {
            TrackerView {
                consumers: (self.consumers - 1) as nat,
                zero_since: if self.consumers == 1 {
                    Some(now)
                } else {
                    self.zero_since
                },
                locked: self.locked,
            }
        }
    }

    /// The deadline has passed with nobody watching, and the lock has not fired yet.
    pub open spec fn fires(self, now: Instant, after: Duration) -> bool {
        &&& !self.locked
        &&& self.consumers == 0
        &&& self.zero_since matches Some(t) && now.since(t) >= after.nanos
    }

    pub open spec fn polled(self, now: Instant, after: Duration) -> TrackerView {
        TrackerView { locked: self.locked || self.fires(now, after), ..self }
    }
}

impl Default for LockTracker {
    fn default() -> (r: LockTracker)
        ensures
            r@ == TrackerView::initial(),
    {
        LockTracker { consumers: 0, zero_since: None, locked: false }
    }
}

impl LockTracker {
    #[verifier::type_invariant]
    closed spec fn countdown_only_when_idle(self) -> bool {
        self@.valid()
    }

    /// How many consumers are watching.
    pub fn consumers(&self) -> (r: usize)
        ensures
            r == self@.consumers,
    {
        self.consumers
    }

    /// Somebody is watching again, so the next departure gets a fresh countdown.
    pub fn on_consumer_added(&mut self)
        requires
            old(self)@.consumers < usize::MAX,
        ensures
            final(self)@ == old(self)@.added(),
    {
        proof {
            use_type_invariant(&*self);
        }
        self.locked = false;
        self.zero_since = None;
        self.consumers = self.consumers + 1;
    }

    /// A consumer left; the countdown starts when it was the last. A departure that nobody arrived
    /// for is ignored.
    pub fn on_consumer_removed(&mut self, now: Instant)
        ensures
            final(self)@ == old(self)@.removed(now),
    {
        proof {
            use_type_invariant(&*self);
        }
        if self.consumers == 0 {
            return;
        }
        self.consumers = self.consumers - 1;
        if self.consumers == 0 {
            self.zero_since = Some(now);
        }
    }

    /// True exactly once per idle period, when the deadline has passed with nobody watching.
    pub fn should_lock(&mut self, now: Instant, after: Duration) -> (r: bool)
        ensures
            r == old(self)@.fires(now, after),
            final(self)@ == old(self)@.polled(now, after),
    {
        proof {
            use_type_invariant(&*self);
        }
        if self.locked || self.consumers > 0 {
            return false;
        }
        match self.zero_since {
            Some(t) => {
                if now.duration_since(t).nanos >= after.nanos {
                    self.locked = true;
                    true
                } else {
                    false
                }
            },
            None => false,
        }
    }
}

/// What a tracker can be told.
pub enum Viewing {
    Arrive,
    Leave(Instant),
    /// A look at the clock, with the idle time that calls for a lock.
    Poll(Instant, Duration),
}

impl TrackerView {
    pub open spec fn told(self, event: Viewing) -> TrackerView {
        match event {
            Viewing::Arrive => self.added(),
            Viewing::Leave(now) => self.removed(now),
            Viewing::Poll(now, after) => self.polled(now, after),
        }
    }
}

/// The tracker after the events of `trace`.
pub open spec fn tracker_after_all(trace: Seq<Viewing>) -> TrackerView
    decreases trace.len(),
{
    if trace.len() == 0 {
        TrackerView::initial()
    } else {
        tracker_after_all(trace.drop_last()).told(trace.last())
    }
}

/// Event `i` of `trace` is a poll that calls for the lock.
pub open spec fn fires_at(trace: Seq<Viewing>, i: int) -> bool {
    &&& 0 <= i < trace.len()
    &&& trace[i] matches Viewing::Poll(now, after) && tracker_after_all(trace.take(i)).fires(now, after)
}

/// Nobody arrives between the events `from` and `to`, both excluded.
pub open spec fn no_arrival_between(trace: Seq<Viewing>, from: int, to: int) -> bool {
    forall|m: int| from < m < to ==> !((#[trigger] trace[m]) is Arrive)
}

/// Event `k` of `trace` is the departure of the last viewer, at the time `left`.
pub open spec fn last_leaves_at(trace: Seq<Viewing>, k: int, left: Instant) -> bool {
    &&& 0 <= k < trace.len()
    &&& trace[k] == Viewing::Leave(left)
    &&& tracker_after_all(trace.take(k)).consumers == 1
}

/// Whatever happens, a countdown runs only while nobody watches.
pub proof fn law_tracker_is_valid(trace: Seq<Viewing>)
    ensures
        tracker_after_all(trace).valid(),
    decreases trace.len(),
{
    if trace.len() > 0 {
        law_tracker_is_valid(trace.drop_last());
    }
}

/// The lock fires once per idle period: between two polls that call for it somebody arrives.
pub proof fn law_fires_once_per_idle_period(trace: Seq<Viewing>, i: int, j: int)
    requires
        fires_at(trace, i),
        fires_at(trace, j),
        i < j,
    ensures
        exists|k: int| i < k < j && (#[trigger] trace[k]) is Arrive,
{
    if forall|k: int| i < k < j ==> !((#[trigger] trace[k]) is Arrive) {
        lemma_stays_locked(trace, i, j);
    }
}

proof fn lemma_stays_locked(trace: Seq<Viewing>, i: int, j: int)
    requires
        fires_at(trace, i),
        i < j <= trace.len(),
        forall|k: int| i < k < j ==> !((#[trigger] trace[k]) is Arrive),
    ensures
        tracker_after_all(trace.take(j)).locked,
    decreases j,
{
    assert(trace.take(j).drop_last() == trace.take(j - 1));
    assert(trace.take(j).last() == trace[j - 1]);
    if i < j - 1 {
        lemma_stays_locked(trace, i, j - 1);
    }
}

/// The lock fires only when the last viewer has been gone for long enough: the last viewer left at a
/// time that lies the idle time back, and nobody has arrived since.
pub proof fn law_fires_only_after_the_deadline(trace: Seq<Viewing>, i: int)
    requires
        fires_at(trace, i),
    ensures
        tracker_after_all(trace.take(i)).consumers == 0,
        exists|k: int, left: Instant| #[trigger]
            last_leaves_at(trace, k, left) && k < i && no_arrival_between(trace, k, i)
                && trace[i]->Poll_0.since(left) >= trace[i]->Poll_1.nanos,
{
    let before = trace.take(i);
    let k = lemma_countdown_starts_at_a_departure(before);
    assert forall|m: int| k < m < i implies !((#[trigger] trace[m]) is Arrive) by {
        assert(before[m] == trace[m]);
    }
    assert(before.take(k) == trace.take(k));
    assert(last_leaves_at(trace, k, tracker_after_all(before).zero_since->0));
}

proof fn lemma_countdown_starts_at_a_departure(trace: Seq<Viewing>) -> (k: int)
    requires
        tracker_after_all(trace).zero_since is Some,
    ensures
        last_leaves_at(trace, k, tracker_after_all(trace).zero_since->0),
        no_arrival_between(trace, k, trace.len() as int),
    decreases trace.len(),
{
    let before = trace.drop_last();
    let last = trace.len() - 1;
    assert(trace.take(last) == before);
    if trace.last() is Leave && tracker_after_all(before).consumers == 1 {
        last
    } else {
        law_tracker_is_valid(before);
        let k = lemma_countdown_starts_at_a_departure(before);
        assert(before.take(k) == trace.take(k));
        assert forall|m: int| k < m < trace.len() implies !((#[trigger] trace[m]) is Arrive) by {
            if m < last {
                assert(before[m] == trace[m]);
            }
        }
        k
    }
}

/// A viewer who returns and leaves again arms the lock anew, whether or not it has fired before:
/// the next poll fires exactly when the idle time has passed since the new departure.
pub proof fn law_a_return_rearms_the_lock(
    trace: Seq<Viewing>,
    left: Instant,
    now: Instant,
    after: Duration,
)
    requires
        tracker_after_all(trace).consumers == 0,
    ensures
        tracker_after_all(trace.push(Viewing::Arrive).push(Viewing::Leave(left))).fires(now, after)
            == (now.since(left) >= after.nanos),
{
    let back = trace.push(Viewing::Arrive);
    let gone = back.push(Viewing::Leave(left));
    assert(back.drop_last() == trace);
    assert(tracker_after_all(back) == tracker_after_all(trace).added());
    assert(gone.drop_last() == back);
}

/// While anybody is still watching, a departure does not start the countdown.
pub proof fn law_a_departure_that_is_not_the_last_starts_nothing(
    trace: Seq<Viewing>,
    left: Instant,
    now: Instant,
    after: Duration,
)
    requires
        tracker_after_all(trace).consumers >= 2,
    ensures
        tracker_after_all(trace.push(Viewing::Leave(left))).zero_since is None,
        !tracker_after_all(trace.push(Viewing::Leave(left))).fires(now, after),
{
    assert(trace.push(Viewing::Leave(left)).drop_last() == trace);
    law_tracker_is_valid(trace);
}

/// The lock is not put off: once the last viewer has left and nobody has arrived since, a poll fires
/// exactly when the idle time has passed since that departure, unless one has fired before.
pub proof fn law_fires_once_the_last_viewer_is_gone(
    trace: Seq<Viewing>,
    k: int,
    left: Instant,
    now: Instant,
    after: Duration,
)
    requires
        last_leaves_at(trace, k, left),
        no_arrival_between(trace, k, trace.len() as int),
        forall|m: int| k < m < trace.len() ==> !#[trigger] fires_at(trace, m),
    ensures
        tracker_after_all(trace).fires(now, after) == (now.since(left) >= after.nanos),
{
    lemma_countdown_runs(trace, k, left, trace.len() as int);
    assert(trace.take(trace.len() as int) == trace);
}

proof fn lemma_countdown_runs(trace: Seq<Viewing>, k: int, left: Instant, n: int)
    requires
        last_leaves_at(trace, k, left),
        k < n <= trace.len(),
        no_arrival_between(trace, k, n),
        forall|m: int| k < m < n ==> !#[trigger] fires_at(trace, m),
    ensures
        tracker_after_all(trace.take(n)) == (TrackerView {
            consumers: 0,
            zero_since: Some(left),
            locked: false,
        }),
    decreases n,
{
    assert(trace.take(n).drop_last() == trace.take(n - 1));
    assert(trace.take(n).last() == trace[n - 1]);
    if n == k + 1 {
        law_tracker_is_valid(trace.take(k));
    } else {
        lemma_countdown_runs(trace, k, left, n - 1);
        assert(!fires_at(trace, n - 1));
    }
}

/// A departure that nobody arrived for changes nothing: the count stays at zero, and a countdown
/// neither starts nor moves.
pub proof fn law_a_stray_departure_changes_nothing(trace: Seq<Viewing>, left: Instant)
    requires
        tracker_after_all(trace).consumers == 0,
    ensures
        tracker_after_all(trace.push(Viewing::Leave(left))) == tracker_after_all(trace),
{
    assert(trace.push(Viewing::Leave(left)).drop_last() == trace);
}

/// A malformed setting is never silent: the lock stays off without a warning exactly when the
/// setting asks for that.
pub proof fn law_off_without_warning_only_when_asked(raw: Option<Seq<char>>)
    ensures
        lock_setting(raw) is Off <==> {
            ||| raw is None
            ||| trimmed(raw->0).len() == 0
            ||| trimmed(raw->0) == "off"@
            ||| unsigned(trimmed(raw->0)) == Some(0nat)
        },
{
}

/// A listing leads to one socket, or to one error: nothing is left to chance.
pub proof fn law_a_listing_determines_the_socket(
    runtime_dir: Seq<char>,
    listing: Result<Vec<InstanceDir>, String>,
    one: Result<HyprIpc, LifecycleError>,
    other: Result<HyprIpc, LifecycleError>,
)
    requires
        discovers(runtime_dir, listing, one),
        discovers(runtime_dir, listing, other),
    ensures
        match (one, other) {
            (Ok(a), Ok(b)) => a.socket@ == b.socket@,
            (Err(a), Err(b)) => a@ == b@,
            _ => false,
        },
{
    if let (Ok(a), Ok(b)) = (one, other) {
        let entries = listing->Ok_0@;
        let i = choose|i: int| #[trigger]
            is_newest(entries, i) && a.socket@ == socket_of(runtime_dir, entries[i].name@);
        let j = choose|j: int| #[trigger]
            is_newest(entries, j) && b.socket@ == socket_of(runtime_dir, entries[j].name@);
        assert(entries[i].usable() && entries[j].usable());
    }
}

/// An instance without a socket is never addressed: leaving it out of the listing changes
/// nothing.
pub proof fn law_an_instance_without_socket_is_ignored(
    runtime_dir: Seq<char>,
    listing: Vec<InstanceDir>,
    without: Vec<InstanceDir>,
    k: int,
    found: Result<HyprIpc, LifecycleError>,
)
    requires
        0 <= k < listing@.len(),
        !listing@[k].has_socket,
        without@ == listing@.remove(k),
    ensures
        discovers(runtime_dir, Ok(listing), found) <==> discovers(
            runtime_dir,
            Ok(without),
            found,
        ),
{
    let all = listing@;
    let rest = without@;
    assert forall|i: int| 0 <= i < all.len() && i != k implies #[trigger] all[i] == rest[if i < k {
        i
    } else {
        i - 1
    }] by {}
    assert forall|j: int| 0 <= j < rest.len() implies #[trigger] rest[j] == all[if j < k {
        j
    } else {
        j + 1
    }] by {}
    assert forall|i: int| #[trigger] is_newest(all, i) implies is_newest(
        rest,
        if i < k {
            i
        } else {
            i - 1
        },
    ) by {}
    assert forall|j: int| #[trigger] is_newest(rest, j) implies is_newest(
        all,
        if j < k {
            j
        } else {
            j + 1
        },
    ) by {}
    if any_usable(all) {
        let i = choose|i: int| 0 <= i < all.len() && (#[trigger] all[i]).usable();
        assert(rest[if i < k {
            i
        } else {
            i - 1
        }].usable());
    }
    if any_usable(rest) {
        let j = choose|j: int| 0 <= j < rest.len() && (#[trigger] rest[j]).usable();
        assert(all[if j < k {
            j
        } else {
            j + 1
        }].usable());
    }
}

/// What an armed lock is told.
pub enum ArmEvent {
    ConsumerAdded,
    ConsumerRemoved(Instant),
    /// One of the regular looks at the clock.
    Tick(Instant),
    /// What listing the directory of the compositor's instances gave.
    Listed(Result<Vec<InstanceDir>, String>),
    /// What dispatching the lock gave: the reply, or the cause of the failure.
    Dispatched(Result<String, String>),
}

/// What is to be done next.
pub enum ArmAction {
    /// Nothing, until the next event.
    Wait,
    /// List this directory of the compositor's instances. It is listed for each lock and not
    /// once at the start: the compositor can restart, and nobody listens on a dead one's socket.
    List { dir: String },
    /// Dispatch [`LOCK_COMMAND`] over this socket, with [`HyprIpc::lock_desktop`].
    Lock(HyprIpc),
    /// Write a line to the log.
    Log(String),
}

pub enum ArmActionView {
    Wait,
    List { dir: Seq<char> },
    Lock { socket: Seq<char> },
    Log(Seq<char>),
}

impl View for ArmAction {
    type V = ArmActionView;

    open spec fn view(&self) -> ArmActionView {
        match self {
            ArmAction::Wait => ArmActionView::Wait,
            ArmAction::List { dir } => ArmActionView::List { dir: dir@ },
            ArmAction::Lock(ipc) => ArmActionView::Lock { socket: ipc.socket@ },
            ArmAction::Log(line) => ArmActionView::Log(line@),
        }
    }
}

/// What follows from looking for the compositor's socket.
pub open spec fn after_discovery(found: Result<HyprIpc, LifecycleError>) -> ArmActionView {
    match found {
        Ok(ipc) => ArmActionView::Lock { socket: ipc.socket@ },
        Err(e) => ArmActionView::Log("lock: cannot reach Hyprland: "@ + e@.message()),
    }
}

/// The line for the log after a dispatch.
pub open spec fn dispatch_line(outcome: Result<String, String>) -> Seq<char> {
    match outcome {
        Err(cause) => "lock: dispatch failed: "@ + cause@,
        Ok(reply) => if accepted(reply@) {
            "lock: "@ + LOCK_COMMAND@ + " dispatched after idle"@
        } else {
            "lock: Hyprland REFUSED the dispatch: "@ + trimmed(reply@)
        },
    }
}

/// The lock wired to a stream's consumers.
pub struct Arm {
    pub tracker: LockTracker,
    pub policy: LockPolicy,
    pub runtime_dir: String,
    /// Whether a listing was asked for that has not come yet.
    pub asked: bool,
}

/// What an armed lock remembers.
pub struct ArmView {
    pub tracker: TrackerView,
    pub asked: bool,
}

impl View for Arm {
    type V = ArmView;

    open spec fn view(&self) -> ArmView {
        ArmView { tracker: self.tracker@, asked: self.asked }
    }
}

/// The listing shows a socket to address.
pub open spec fn shows_socket(listing: Result<Vec<InstanceDir>, String>) -> bool {
    listing matches Ok(entries) && any_usable(entries@)
}

impl ArmView {
    pub open spec fn initial() -> ArmView {
        ArmView { tracker: TrackerView::initial(), asked: false }
    }

    /// The event is a tick that calls for the lock.
    pub open spec fn asks(self, after: Duration, event: ArmEvent) -> bool {
        event matches ArmEvent::Tick(now) && self.tracker.fires(now, after)
    }

    /// The event is a listing that was asked for and that shows where to send the lock.
    pub open spec fn locks(self, event: ArmEvent) -> bool {
        event matches ArmEvent::Listed(listing) && self.asked && shows_socket(listing)
    }

    /// After `event`, where the lock is due after that idle time.
    pub open spec fn told(self, after: Duration, event: ArmEvent) -> ArmView {
        match event {
            ArmEvent::ConsumerAdded => ArmView { tracker: self.tracker.added(), ..self },
            ArmEvent::ConsumerRemoved(now) => ArmView { tracker: self.tracker.removed(now), ..self },
            ArmEvent::Tick(now) => ArmView {
                tracker: self.tracker.polled(now, after),
                asked: self.asked || self.asks(after, event),
            },
            ArmEvent::Listed(_) => ArmView { asked: false, ..self },
            ArmEvent::Dispatched(_) => self,
        }
    }
}

impl Arm {
    /// `action` is what `event` calls for.
    pub open spec fn answers(self, event: ArmEvent, action: ArmActionView) -> bool {
        match event {
            ArmEvent::ConsumerAdded => action == ArmActionView::Wait,
            ArmEvent::ConsumerRemoved(_) => action == ArmActionView::Wait,
            ArmEvent::Tick(_) => action == if self@.asks(self.policy.after, event) {
                ArmActionView::List { dir: instances_dir(self.runtime_dir@) }
            } else {
                ArmActionView::Wait
            },
            ArmEvent::Listed(listing) => if self.asked {
                exists|found: Result<HyprIpc, LifecycleError>| #[trigger]
                    discovers(self.runtime_dir@, listing, found) && action == after_discovery(found)
            } else {
                action == ArmActionView::Wait
            },
            ArmEvent::Dispatched(outcome) => action == ArmActionView::Log(dispatch_line(outcome)),
        }
    }

    /// Takes one event and says what is to be done. A listing that was not asked for is ignored.
    pub fn step(&mut self, event: ArmEvent) -> (r: ArmAction)
        requires
            event is ConsumerAdded ==> old(self).tracker@.consumers < usize::MAX,
        ensures
            old(self).answers(event, r@),
            r@ is List <==> old(self)@.asks(old(self).policy.after, event),
            r@ is Lock <==> old(self)@.locks(event),
            final(self)@ == old(self)@.told(old(self).policy.after, event),
            final(self).policy == old(self).policy,
            final(self).runtime_dir@ == old(self).runtime_dir@,
    {
        match event {
            ArmEvent::ConsumerAdded => {
                self.tracker.on_consumer_added();
                ArmAction::Wait
            },
            ArmEvent::ConsumerRemoved(now) => {
                self.tracker.on_consumer_removed(now);
                ArmAction::Wait
            },
            ArmEvent::Tick(now) => {
                if self.tracker.should_lock(now, self.policy.after) {
                    self.asked = true;
                    ArmAction::List { dir: join_path(self.runtime_dir.as_str(), "hypr") }
                } else {
                    ArmAction::Wait
                }
            },
            ArmEvent::Listed(listing) => {
                if !self.asked {
                    return ArmAction::Wait;
                }
                self.asked = false;
                match HyprIpc::discover(self.runtime_dir.as_str(), listing) {
                    Ok(ipc) => ArmAction::Lock(ipc),
                    Err(e) => {
                        let mut line = "lock: cannot reach Hyprland: ".to_owned();
                        line.append(e.message().as_str());
                        ArmAction::Log(line)
                    },
                }
            },
            ArmEvent::Dispatched(outcome) => ArmAction::Log(dispatch_report(outcome)),
        }
    }
}

fn dispatch_report(outcome: Result<String, String>) -> (r: String)
    ensures
        r@ == dispatch_line(outcome),
{
    match outcome {
        Err(cause) => {
            let mut r = "lock: dispatch failed: ".to_owned();
            r.append(cause.as_str());
            r
        },
        Ok(reply) => if dispatch_accepted(reply.as_str()) {
            let mut r = "lock: ".to_owned();
            r.append(LOCK_COMMAND);
            r.append(" dispatched after idle");
            r
        } else {
            let mut r = "lock: Hyprland REFUSED the dispatch: ".to_owned();
            r.append(trim(reply.as_str()));
            r
        },
    }
}

/// Arms the lock for a stream that nobody has watched yet.
pub fn arm(policy: LockPolicy, runtime_dir: String) -> (r: Arm)
    ensures
        r@ == ArmView::initial(),
        r.policy == policy,
        r.runtime_dir@ == runtime_dir@,
{
    Arm { tracker: LockTracker::default(), policy, runtime_dir, asked: false }
}

/// An armed lock after these events.
pub open spec fn arm_after(after: Duration, events: Seq<ArmEvent>) -> ArmView
    decreases events.len(),
{
    if events.len() == 0 {
        ArmView::initial()
    } else {
        arm_after(after, events.drop_last()).told(after, events.last())
    }
}

/// Event `i` is a tick at which the armed lock asks for a listing.
pub open spec fn asks_at(after: Duration, events: Seq<ArmEvent>, i: int) -> bool {
    0 <= i < events.len() && arm_after(after, events.take(i)).asks(after, events[i])
}

/// Event `i` is a listing at which the armed lock has the lock command dispatched.
pub open spec fn locks_at(after: Duration, events: Seq<ArmEvent>, i: int) -> bool {
    0 <= i < events.len() && arm_after(after, events.take(i)).locks(events[i])
}

/// Event `k` is the departure of the last consumer, at the time `left`.
pub open spec fn last_removed_at(
    after: Duration,
    events: Seq<ArmEvent>,
    k: int,
    left: Instant,
) -> bool {
    &&& 0 <= k < events.len()
    &&& events[k] == ArmEvent::ConsumerRemoved(left)
    &&& arm_after(after, events.take(k)).tracker.consumers == 1
}

proof fn lemma_arm_prefix(after: Duration, events: Seq<ArmEvent>, n: int)
    requires
        0 <= n < events.len(),
    ensures
        arm_after(after, events.take(n + 1)) == arm_after(after, events.take(n)).told(
            after,
            events[n],
        ),
{
    assert(events.take(n + 1).drop_last() == events.take(n));
}

/// Whatever an armed lock is told, its countdown runs only while nobody watches.
pub proof fn law_an_armed_lock_is_valid(after: Duration, events: Seq<ArmEvent>)
    ensures
        arm_after(after, events).tracker.valid(),
    decreases events.len(),
{
    if events.len() > 0 {
        law_an_armed_lock_is_valid(after, events.drop_last());
    }
}

proof fn lemma_armed_stays_locked(after: Duration, events: Seq<ArmEvent>, i: int, j: int)
    requires
        asks_at(after, events, i),
        i < j <= events.len(),
        forall|k: int| i < k < j ==> !((#[trigger] events[k]) is ConsumerAdded),
    ensures
        arm_after(after, events.take(j)).tracker.locked,
    decreases j,
{
    lemma_arm_prefix(after, events, j - 1);
    if i < j - 1 {
        lemma_armed_stays_locked(after, events, i, j - 1);
    }
}

/// An armed lock asks once per idle period: between two ticks at which it asks, a consumer arrives.
pub proof fn law_an_armed_lock_asks_once_per_idle_period(
    after: Duration,
    events: Seq<ArmEvent>,
    i: int,
    j: int,
)
    requires
        asks_at(after, events, i),
        asks_at(after, events, j),
        i < j,
    ensures
        exists|k: int| i < k < j && (#[trigger] events[k]) is ConsumerAdded,
{
    if forall|k: int| i < k < j ==> !((#[trigger] events[k]) is ConsumerAdded) {
        lemma_armed_stays_locked(after, events, i, j);
    }
}

proof fn lemma_armed_countdown(after: Duration, events: Seq<ArmEvent>, n: int) -> (k: int)
    requires
        0 <= n <= events.len(),
        arm_after(after, events.take(n)).tracker.zero_since is Some,
    ensures
        k < n,
        last_removed_at(after, events, k, arm_after(after, events.take(n)).tracker.zero_since->0),
        forall|m: int| k < m < n ==> !((#[trigger] events[m]) is ConsumerAdded),
    decreases n,
{
    let last = n - 1;
    lemma_arm_prefix(after, events, last);
    let before = arm_after(after, events.take(last));
    if events[last] is ConsumerRemoved && before.tracker.consumers == 1 {
        last
    } else {
        law_an_armed_lock_is_valid(after, events.take(last));
        lemma_armed_countdown(after, events, last)
    }
}

/// An armed lock asks only when nobody watches and the last consumer left at a time that lies the
/// idle time back, with no arrival since.
pub proof fn law_an_armed_lock_asks_only_after_the_deadline(
    after: Duration,
    events: Seq<ArmEvent>,
    i: int,
)
    requires
        asks_at(after, events, i),
    ensures
        arm_after(after, events.take(i)).tracker.consumers == 0,
        exists|k: int, left: Instant| #[trigger]
            last_removed_at(after, events, k, left) && k < i && (forall|m: int|
                k < m < i ==> !((#[trigger] events[m]) is ConsumerAdded))
                && events[i]->Tick_0.since(left) >= after.nanos,
{
    let k = lemma_armed_countdown(after, events, i);
    let left = arm_after(after, events.take(i)).tracker.zero_since->0;
    assert(last_removed_at(after, events, k, left));
}

proof fn lemma_asked_by_a_tick(after: Duration, events: Seq<ArmEvent>, n: int) -> (t: int)
    requires
        0 <= n <= events.len(),
        arm_after(after, events.take(n)).asked,
    ensures
        t < n,
        asks_at(after, events, t),
        forall|m: int| t < m < n ==> !((#[trigger] events[m]) is Listed),
    decreases n,
{
    let last = n - 1;
    lemma_arm_prefix(after, events, last);
    if asks_at(after, events, last) {
        last
    } else {
        lemma_asked_by_a_tick(after, events, last)
    }
}

/// The lock is dispatched only on a listing that a tick had asked for, and on the first one after
/// it: each dispatch looks for the socket anew.
pub proof fn law_a_lock_answers_a_listing_that_was_asked_for(
    after: Duration,
    events: Seq<ArmEvent>,
    i: int,
)
    requires
        locks_at(after, events, i),
    ensures
        events[i] is Listed,
        exists|t: int| #[trigger]
            asks_at(after, events, t) && t < i && forall|m: int|
                t < m < i ==> !((#[trigger] events[m]) is Listed),
{
    let t = lemma_asked_by_a_tick(after, events, i);
    assert(asks_at(after, events, t));
}

/// The lock is dispatched at most once per idle period, whether or not it succeeds: two dispatches
/// answer two ticks that asked, and between those a consumer arrives.
pub proof fn law_an_armed_lock_is_dispatched_once_per_idle_period(
    after: Duration,
    events: Seq<ArmEvent>,
    i: int,
    j: int,
)
    requires
        locks_at(after, events, i),
        locks_at(after, events, j),
        i < j,
    ensures
        exists|t: int, k: int, u: int|
            #![trigger asks_at(after, events, t), events[k], asks_at(after, events, u)]
            t < i < u < j && t < k < u && asks_at(after, events, t) && events[k] is ConsumerAdded
                && asks_at(after, events, u),
{
    let t = lemma_asked_by_a_tick(after, events, i);
    let u = lemma_asked_by_a_tick(after, events, j);
    assert(events[i] is Listed);
    assert(events[u] is Tick);
    law_an_armed_lock_asks_once_per_idle_period(after, events, t, u);
    let k = choose|k: int| t < k < u && (#[trigger] events[k]) is ConsumerAdded;
    assert(asks_at(after, events, t) && events[k] is ConsumerAdded && asks_at(after, events, u));
}

/// Event `i` is a listing at which the lock is dispatched, and nobody has arrived since `t`, the tick
/// that asked for it.
pub open spec fn locks_promptly_at(
    after: Duration,
    events: Seq<ArmEvent>,
    t: int,
    i: int,
) -> bool {
    &&& locks_at(after, events, i)
    &&& asks_at(after, events, t)
    &&& t < i
    &&& forall|m: int|
        t < m < i ==> !((#[trigger] events[m]) is Listed) && !(events[m] is ConsumerAdded)
}

proof fn lemma_stays_empty(after: Duration, events: Seq<ArmEvent>, t: int, n: int)
    requires
        asks_at(after, events, t),
        t < n <= events.len(),
        forall|m: int| t < m < n ==> !((#[trigger] events[m]) is ConsumerAdded),
    ensures
        arm_after(after, events.take(n)).tracker.consumers == 0,
    decreases n,
{
    lemma_arm_prefix(after, events, n - 1);
    if t < n - 1 {
        lemma_stays_empty(after, events, t, n - 1);
    }
}

/// A lock that is dispatched before anybody returns meets an idle desktop: nobody watches, the last
/// consumer left at least the idle time before the tick that asked, and nobody has arrived since.
pub proof fn law_a_prompt_lock_meets_an_idle_desktop(
    after: Duration,
    events: Seq<ArmEvent>,
    t: int,
    i: int,
)
    requires
        locks_promptly_at(after, events, t, i),
    ensures
        arm_after(after, events.take(i)).tracker.consumers == 0,
        exists|k: int, left: Instant| #[trigger]
            last_removed_at(after, events, k, left) && k < t && (forall|m: int|
                k < m < i ==> !((#[trigger] events[m]) is ConsumerAdded))
                && events[t]->Tick_0.since(left) >= after.nanos,
{
    lemma_stays_empty(after, events, t, i);
    let k = lemma_armed_countdown(after, events, t);
    let left = arm_after(after, events.take(t)).tracker.zero_since->0;
    assert(last_removed_at(after, events, k, left));
    assert(events[t] is Tick);
}

/// From a lock that is dispatched before anybody returns until the next arrival, no other lock is
/// dispatched.
pub proof fn law_after_a_prompt_lock_none_before_the_next_arrival(
    after: Duration,
    events: Seq<ArmEvent>,
    t: int,
    i: int,
    j: int,
)
    requires
        locks_promptly_at(after, events, t, i),
        locks_at(after, events, j),
        i < j,
    ensures
        exists|k: int| i < k < j && (#[trigger] events[k]) is ConsumerAdded,
{
    let u = lemma_asked_by_a_tick(after, events, j);
    assert(events[i] is Listed);
    assert(events[u] is Tick);
    law_an_armed_lock_asks_once_per_idle_period(after, events, t, u);
}

/// How many watch after these events: each arrival is one more and each departure one less, down to
/// none.
pub open spec fn viewers(trace: Seq<Viewing>) -> nat
    decreases trace.len(),
{
    if trace.len() == 0 {
        0
    } else {
        let before = viewers(trace.drop_last());
        match trace.last() {
            Viewing::Arrive => before + 1,
            Viewing::Leave(_) => if before == 0 {
                0
            } else {
                (before - 1) as nat
            },
            Viewing::Poll(_, _) => before,
        }
    }
}

/// The tracker counts every arrival and every departure.
pub proof fn law_the_tracker_counts_the_viewers(trace: Seq<Viewing>)
    ensures
        tracker_after_all(trace).consumers == viewers(trace),
    decreases trace.len(),
{
    if trace.len() > 0 {
        law_the_tracker_counts_the_viewers(trace.drop_last());
    }
}

/// Before event `i` the desktop has been empty since event `k`, in which the last viewer left at the
/// time `left`, and no poll has fired since.
pub open spec fn empty_since(trace: Seq<Viewing>, k: int, left: Instant, i: int) -> bool {
    &&& 0 <= k < i <= trace.len()
    &&& trace[k] == Viewing::Leave(left)
    &&& viewers(trace.take(k)) == 1
    &&& forall|m: int|
        k < m < i ==> !((#[trigger] trace[m]) is Arrive) && !fires_at(trace, m)
}

/// When a poll fires, told from the events alone: exactly when the last viewer has left, nobody has
/// arrived since, no poll has fired since, and the idle time has passed.
pub proof fn law_a_poll_fires_exactly_when_it_is_due(
    trace: Seq<Viewing>,
    i: int,
    now: Instant,
    after: Duration,
)
    requires
        0 <= i < trace.len(),
        trace[i] == Viewing::Poll(now, after),
    ensures
        fires_at(trace, i) <==> exists|k: int, left: Instant| #[trigger]
            empty_since(trace, k, left, i) && (now.nanos >= left.nanos + after.nanos || after.nanos
                == 0),
        fires_at(trace, i) ==> viewers(trace.take(i)) == 0,
{
    law_the_tracker_counts_the_viewers(trace.take(i));
    if fires_at(trace, i) {
        law_fires_only_after_the_deadline(trace, i);
        let (k, left) = choose|k: int, left: Instant| #[trigger]
            last_leaves_at(trace, k, left) && k < i && no_arrival_between(trace, k, i)
                && trace[i]->Poll_0.since(left) >= trace[i]->Poll_1.nanos;
        law_the_tracker_counts_the_viewers(trace.take(k));
        assert forall|m: int| k < m < i implies !((#[trigger] trace[m]) is Arrive) && !fires_at(
            trace,
            m,
        ) by {
            if fires_at(trace, m) {
                lemma_stays_locked(trace, m, i);
            }
        }
        assert(empty_since(trace, k, left, i));
    }
    if exists|k: int, left: Instant| #[trigger]
        empty_since(trace, k, left, i) && (now.nanos >= left.nanos + after.nanos || after.nanos
            == 0) {
        let (k, left) = choose|k: int, left: Instant| #[trigger]
            empty_since(trace, k, left, i) && (now.nanos >= left.nanos + after.nanos || after.nanos
                == 0);
        law_the_tracker_counts_the_viewers(trace.take(k));
        assert(last_leaves_at(trace, k, left));
        assert forall|m: int| k < m < i implies !#[trigger] fires_at(trace, m) by {
            assert(!(trace[m] is Arrive));
        }
        lemma_countdown_runs(trace, k, left, i);
    }
}

/// How many consumers there are after these events: each arrival is one more and each departure one
/// less, down to none.
pub open spec fn consumers_after(events: Seq<ArmEvent>) -> nat
    decreases events.len(),
{
    if events.len() == 0 {
        0
    } else {
        let before = consumers_after(events.drop_last());
        match events.last() {
            ArmEvent::ConsumerAdded => before + 1,
            ArmEvent::ConsumerRemoved(_) => if before == 0 {
                0
            } else {
                (before - 1) as nat
            },
            _ => before,
        }
    }
}

/// An armed lock counts every arrival and every departure.
pub proof fn law_an_armed_lock_counts_the_consumers(after: Duration, events: Seq<ArmEvent>)
    ensures
        arm_after(after, events).tracker.consumers == consumers_after(events),
    decreases events.len(),
{
    if events.len() > 0 {
        law_an_armed_lock_counts_the_consumers(after, events.drop_last());
    }
}

/// Before event `i` there has been no consumer since event `k`, in which the last one left at the
/// time `left`, and the lock has not been asked for since.
pub open spec fn idle_since(
    after: Duration,
    events: Seq<ArmEvent>,
    k: int,
    left: Instant,
    i: int,
) -> bool {
    &&& 0 <= k < i <= events.len()
    &&& events[k] == ArmEvent::ConsumerRemoved(left)
    &&& consumers_after(events.take(k)) == 1
    &&& forall|m: int|
        k < m < i ==> !((#[trigger] events[m]) is ConsumerAdded) && !asks_at(after, events, m)
}

proof fn lemma_armed_countdown_runs(
    after: Duration,
    events: Seq<ArmEvent>,
    k: int,
    left: Instant,
    n: int,
)
    requires
        idle_since(after, events, k, left, n),
    ensures
        arm_after(after, events.take(n)).tracker == (TrackerView {
            consumers: 0,
            zero_since: Some(left),
            locked: false,
        }),
    decreases n,
{
    lemma_arm_prefix(after, events, n - 1);
    if n == k + 1 {
        law_an_armed_lock_counts_the_consumers(after, events.take(k));
        law_an_armed_lock_is_valid(after, events.take(k));
    } else {
        lemma_armed_countdown_runs(after, events, k, left, n - 1);
        assert(!(events[n - 1] is ConsumerAdded));
    }
}

/// When an armed lock asks, told from the events alone: at a tick, exactly when the last consumer has
/// left, nobody has arrived since, it has not asked since, and the idle time has passed. Nobody is
/// watching then.
pub proof fn law_an_armed_lock_asks_exactly_when_it_is_due(
    after: Duration,
    events: Seq<ArmEvent>,
    i: int,
)
    requires
        0 <= i < events.len(),
    ensures
        asks_at(after, events, i) <==> (events[i] matches ArmEvent::Tick(now) && exists|
            k: int,
            left: Instant,
        | #[trigger]
            idle_since(after, events, k, left, i) && (now.nanos >= left.nanos + after.nanos
                || after.nanos == 0)),
        asks_at(after, events, i) ==> consumers_after(events.take(i)) == 0,
{
    law_an_armed_lock_counts_the_consumers(after, events.take(i));
    if asks_at(after, events, i) {
        let k = lemma_armed_countdown(after, events, i);
        let left = arm_after(after, events.take(i)).tracker.zero_since->0;
        law_an_armed_lock_counts_the_consumers(after, events.take(k));
        assert forall|m: int| k < m < i implies !((#[trigger] events[m]) is ConsumerAdded)
            && !asks_at(after, events, m) by {
            if asks_at(after, events, m) {
                lemma_armed_stays_locked(after, events, m, i);
            }
        }
        assert(idle_since(after, events, k, left, i));
    }
    if let ArmEvent::Tick(now) = events[i] {
        if exists|k: int, left: Instant| #[trigger]
            idle_since(after, events, k, left, i) && (now.nanos >= left.nanos + after.nanos
                || after.nanos == 0) {
            let (k, left) = choose|k: int, left: Instant| #[trigger]
                idle_since(after, events, k, left, i) && (now.nanos >= left.nanos + after.nanos
                    || after.nanos == 0);
            lemma_armed_countdown_runs(after, events, k, left, i);
        }
    }
}

proof fn lemma_stays_asked(after: Duration, events: Seq<ArmEvent>, t: int, n: int)
    requires
        asks_at(after, events, t),
        t < n <= events.len(),
        forall|m: int| t < m < n ==> !((#[trigger] events[m]) is Listed),
    ensures
        arm_after(after, events.take(n)).asked,
    decreases n,
{
    lemma_arm_prefix(after, events, n - 1);
    if t < n - 1 {
        lemma_stays_asked(after, events, t, n - 1);
    }
}

/// When an armed lock dispatches, told from the events alone: on a listing that shows an instance
/// with a socket and a date, exactly when it is the first listing since one was asked for.
pub proof fn law_an_armed_lock_dispatches_exactly_when_asked(
    after: Duration,
    events: Seq<ArmEvent>,
    i: int,
)
    requires
        0 <= i < events.len(),
    ensures
        locks_at(after, events, i) <==> {
            &&& events[i] matches ArmEvent::Listed(Ok(entries)) && exists|n: int|
                0 <= n < entries@.len() && (#[trigger] entries@[n]).has_socket
                    && entries@[n].modified is Some
            &&& exists|t: int| #[trigger]
                asks_at(after, events, t) && t < i && forall|m: int|
                    t < m < i ==> !((#[trigger] events[m]) is Listed)
        },
{
    if let ArmEvent::Listed(Ok(entries)) = events[i] {
        if exists|n: int|
            0 <= n < entries@.len() && (#[trigger] entries@[n]).has_socket
                && entries@[n].modified is Some {
            let n = choose|n: int|
                0 <= n < entries@.len() && (#[trigger] entries@[n]).has_socket
                    && entries@[n].modified is Some;
            assert(entries@[n].usable());
            assert(any_usable(entries@));
        }
        if any_usable(entries@) {
            let n = choose|n: int| 0 <= n < entries@.len() && (#[trigger] entries@[n]).usable();
            assert(entries@[n].has_socket && entries@[n].modified is Some);
        }
    }
    if locks_at(after, events, i) {
        let t = lemma_asked_by_a_tick(after, events, i);
        assert(asks_at(after, events, t));
    }
    if exists|t: int| #[trigger]
        asks_at(after, events, t) && t < i && forall|m: int|
            t < m < i ==> !((#[trigger] events[m]) is Listed) {
        let t = choose|t: int| #[trigger]
            asks_at(after, events, t) && t < i && forall|m: int|
                t < m < i ==> !((#[trigger] events[m]) is Listed);
        lemma_stays_asked(after, events, t, i);
    }
}

/// A path is the directory, one slash, and the name; a directory that ends in a slash gets no second
/// one, and an empty one none.
pub proof fn law_a_path_has_one_slash(dir: Seq<char>, name: Seq<char>)
    ensures
        path_in(Seq::empty(), name) == name,
        path_in(dir.push('/'), name) == dir.push('/') + name,
        dir.len() > 0 && dir.last() != '/' ==> path_in(dir, name) == dir + "/"@ + name,
        instances_dir(dir) == path_in(dir, "hypr"@),
        socket_of(dir, name) == path_in(path_in(path_in(dir, "hypr"@), name), ".socket.sock"@),
{
    assert(path_in(Seq::empty(), name) =~= name);
}

/// Entry `i` has a socket and a date, and no other such entry is dated later, or at the same time and
/// listed later.
pub open spec fn dated_last(entries: Seq<InstanceDir>, i: int) -> bool {
    &&& 0 <= i < entries.len()
    &&& entries[i].has_socket
    &&& entries[i].modified is Some
    &&& forall|j: int|
        0 <= j < entries.len() && (#[trigger] entries[j]).has_socket && entries[j].modified is Some
            && j != i ==> entries[j].modified->0 < entries[i].modified->0 || (
        entries[j].modified->0 == entries[i].modified->0 && j < i)
}

/// What a listing leads to: the socket of the newest instance that has one and a date, the later
/// listed among equals; without one an error that names the directory, and so where it could not be
/// listed, with the cause.
pub proof fn law_the_newest_instance_is_addressed(
    runtime_dir: Seq<char>,
    listing: Result<Vec<InstanceDir>, String>,
    found: Result<HyprIpc, LifecycleError>,
)
    requires
        discovers(runtime_dir, listing, found),
    ensures
        listing matches Err(cause) ==> (found matches Err(e) && e@ == (
        LifecycleErrorView::Unreadable { base: path_in(runtime_dir, "hypr"@), cause: cause@ })),
        listing matches Ok(entries) ==> {
            &&& found is Ok <==> exists|i: int|
                0 <= i < entries@.len() && (#[trigger] entries@[i]).has_socket
                    && entries@[i].modified is Some
            &&& found matches Ok(ipc) ==> exists|i: int| #[trigger]
                dated_last(entries@, i) && ipc.socket@ == path_in(
                    path_in(path_in(runtime_dir, "hypr"@), entries@[i].name@),
                    ".socket.sock"@,
                )
            &&& found matches Err(e) ==> e@ == (LifecycleErrorView::NoSocket {
                base: path_in(runtime_dir, "hypr"@),
            })
        },
{
    if let Ok(entries) = listing {
        if exists|i: int|
            0 <= i < entries@.len() && (#[trigger] entries@[i]).has_socket
                && entries@[i].modified is Some {
            let i = choose|i: int|
                0 <= i < entries@.len() && (#[trigger] entries@[i]).has_socket
                    && entries@[i].modified is Some;
            assert(entries@[i].usable());
        }
        if let Ok(ipc) = found {
            let i = choose|i: int| #[trigger]
                is_newest(entries@, i) && ipc.socket@ == socket_of(runtime_dir, entries@[i].name@);
            assert(entries@[i].usable());
            assert forall|j: int|
                0 <= j < entries@.len() && (#[trigger] entries@[j]).has_socket
                    && entries@[j].modified is Some && j != i implies entries@[j].modified->0
                < entries@[i].modified->0 || (entries@[j].modified->0 == entries@[i].modified->0 && j
                < i) by {
                assert(entries@[j].usable());
            }
            assert(dated_last(entries@, i));
        }
    }
}

/// What an armed lock answers to each event.
pub proof fn law_an_armed_lock_answers_each_event(arm: Arm, event: ArmEvent, action: ArmActionView)
    requires
        arm.answers(event, action),
    ensures
        event is ConsumerAdded || event is ConsumerRemoved ==> action == ArmActionView::Wait,
        event is Tick ==> action == ArmActionView::Wait || action == (ArmActionView::List {
            dir: path_in(arm.runtime_dir@, "hypr"@),
        }),
        event matches ArmEvent::Listed(_) ==> (!arm.asked ==> action == ArmActionView::Wait),
        event matches ArmEvent::Listed(Err(cause)) ==> (arm.asked ==> action == ArmActionView::Log(
            "lock: cannot reach Hyprland: "@ + ("reading "@ + path_in(arm.runtime_dir@, "hypr"@)
                + " — is Hyprland running?: "@ + cause@),
        )),
        event matches ArmEvent::Listed(Ok(entries)) ==> (arm.asked ==> {
            ||| action == ArmActionView::Log(
                "lock: cannot reach Hyprland: "@ + ("no .socket.sock under "@ + path_in(
                    arm.runtime_dir@,
                    "hypr"@,
                )),
            )
            ||| exists|i: int| #[trigger]
                dated_last(entries@, i) && action == (ArmActionView::Lock {
                    socket: path_in(
                        path_in(path_in(arm.runtime_dir@, "hypr"@), entries@[i].name@),
                        ".socket.sock"@,
                    ),
                })
        }),
        event matches ArmEvent::Dispatched(Err(cause)) ==> action == ArmActionView::Log(
            "lock: dispatch failed: "@ + cause@,
        ),
        event matches ArmEvent::Dispatched(Ok(reply)) ==> action == ArmActionView::Log(
            if accepted(reply@) {
                "lock: "@ + "hyprlock"@ + " dispatched after idle"@
            } else {
                "lock: Hyprland REFUSED the dispatch: "@ + trimmed(reply@)
            },
        ),
{
    if let ArmEvent::Listed(listing) = event {
        if arm.asked {
            let found = choose|found: Result<HyprIpc, LifecycleError>| #[trigger]
                discovers(arm.runtime_dir@, listing, found) && action == after_discovery(found);
            law_the_newest_instance_is_addressed(arm.runtime_dir@, listing, found);
        }
    }
}

/// How the setting for the idle time reads: as the number of seconds that it spells, from one to the
/// most that fit; anything else that is no word for off is malformed.
pub proof fn law_the_idle_time_is_taken_as_it_was_set(raw: Seq<char>, n: nat)
    ensures
        lock_setting(Some(raw)) == LockSetting::After(n) <==> unsigned(trimmed(raw)) == Some(n)
            && 1 <= n <= u64::MAX,
        lock_setting(Some(raw)) is Malformed <==> trimmed(raw).len() > 0 && trimmed(raw) != "off"@
            && match unsigned(trimmed(raw)) {
            Some(n) => n > u64::MAX,
            None => true,
        },
        lock_setting(None) is Off,
{
    reveal_strlit("off");
    if trimmed(raw) == "off"@ {
        assert(trimmed(raw)[0] == 'o');
        assert(without_plus(trimmed(raw)) == trimmed(raw));
        assert(!is_digit(trimmed(raw)[0]));
    }
}

/// The warning and the errors name what they are about; the request names the command, and requests
/// for two commands differ.
pub proof fn law_the_words_name_what_they_are_about(
    word: Seq<char>,
    base: Seq<char>,
    cause: Seq<char>,
    command: Seq<char>,
    other: Seq<char>,
)
    ensures
        malformed_warning(word) == "lock: CSTREAM_LOCK_AFTER="@ + word
            + " is not a number of seconds — ignoring, the desktop will NOT auto-lock"@,
        (LifecycleErrorView::Unreadable { base, cause }).message() == "reading "@ + base
            + " — is Hyprland running?: "@ + cause,
        (LifecycleErrorView::NoSocket { base }).message() == "no .socket.sock under "@ + base,
        lock_request(command) == "dispatch hl.dsp.exec_raw(\""@ + command + "\")"@,
        lock_request(command) == lock_request(other) ==> command == other,
        LOCK_COMMAND@ == "hyprlock"@,
{
    let start = "dispatch hl.dsp.exec_raw(\""@;
    let end = "\")"@;
    let a = start + command + end;
    let b = start + other + end;
    assert(a.subrange(start.len() as int, a.len() - end.len()) =~= command);
    assert(b.subrange(start.len() as int, b.len() - end.len()) =~= other);
}

/// Which replies count as accepted, whatever space is around them.
pub proof fn law_a_reply_is_accepted_unless_it_complains(reply: Seq<char>)
    ensures
        accepted(reply) <==> {
            &&& trimmed(reply).len() > 0
            &&& !"error"@.is_prefix_of(trimmed(reply))
            &&& !has_part(trimmed(reply), "nil value"@)
        },
{
}

/// Sockets, errors and actions stand for themselves.
pub proof fn law_actions_stand_for_themselves(text: String, cause: String, ipc: HyprIpc, arm: Arm)
    ensures
        ArmAction::Wait@ == ArmActionView::Wait,
        (ArmAction::List { dir: text })@ == (ArmActionView::List { dir: text@ }),
        ArmAction::Lock(ipc)@ == (ArmActionView::Lock { socket: ipc.socket@ }),
        ArmAction::Log(text)@ == ArmActionView::Log(text@),
        (LifecycleError::Unreadable { base: text, cause })@ == (LifecycleErrorView::Unreadable {
            base: text@,
            cause: cause@,
        }),
        (LifecycleError::NoSocket { base: text })@ == (LifecycleErrorView::NoSocket { base: text@ }),
        arm@.tracker == arm.tracker@,
        arm@.asked == arm.asked,
{
}

}
