//! The per-user session leader.
//!
//! It runs as root exactly long enough to authenticate a user and open a session, then drops to
//! that user and never regains privilege.
//!
//! The order of the drop is not a matter of style. The groups go before the group id, and the
//! group id before the user id: after the user id has changed the process no longer has the
//! privilege to change groups, and a wrong order leaves the session holding root's supplementary
//! groups while it appears to have dropped.
//!
//! The system calls themselves are made by whoever runs a [`PrivilegeDrop`]: it says which call
//! comes next and is told what the call gave.

use vstd::prelude::*;

use crate::text::{decimal, decimal_text, opt_text};

verus! {

/// The identity a session runs as.
#[derive(Debug, Clone, Copy, PartialEq, Eq, Structural)]
pub struct Identity {
    pub uid: u32,
    pub gid: u32,
}

/// The steps by which privilege is surrendered.
#[derive(Debug, Clone, Copy, PartialEq, Eq, Structural)]
pub enum DropStep {
    SetGroups,
    SetGid,
    SetUid,
}

/// The canonical order. Any other order is a privilege-retention bug.
pub const DROP_ORDER: [DropStep; 3] = [DropStep::SetGroups, DropStep::SetGid, DropStep::SetUid];

/// The real and effective ids of a process.
#[derive(Debug, Clone, Copy, PartialEq, Eq, Structural)]
pub struct ProcessIds {
    pub uid: u32,
    pub euid: u32,
    pub gid: u32,
    pub egid: u32,
}

/// A system call that the drop asks for.
#[derive(Debug, Clone, Copy, PartialEq, Eq, Structural)]
pub enum Call {
    /// `setgroups` with no groups.
    SetGroups,
    SetGid(u32),
    SetUid(u32),
    /// Read the real and effective ids.
    ReadIds,
    /// `setuid(0)`, which must fail.
    RegainRoot,
}

/// Why a session must not start.
#[derive(Debug, PartialEq, Eq)]
pub enum LeaderError {
    NotADrop,
    SetGroupsFailed { cause: String },
    SetGidFailed { gid: u32, cause: String },
    SetUidFailed { uid: u32, cause: String },
    UidNotDropped { actual: u32, effective: u32, want: u32 },
    GidNotDropped { actual: u32, effective: u32, want: u32 },
    PrivilegeRetained,
}

pub enum LeaderErrorView {
    NotADrop,
    SetGroupsFailed { cause: Seq<char> },
    SetGidFailed { gid: u32, cause: Seq<char> },
    SetUidFailed { uid: u32, cause: Seq<char> },
    UidNotDropped { actual: u32, effective: u32, want: u32 },
    GidNotDropped { actual: u32, effective: u32, want: u32 },
    PrivilegeRetained,
}

impl View for LeaderError {
    type V = LeaderErrorView;

    open spec fn view(&self) -> LeaderErrorView {
        match self {
            LeaderError::NotADrop => LeaderErrorView::NotADrop,
            LeaderError::SetGroupsFailed { cause } => LeaderErrorView::SetGroupsFailed {
                cause: cause@,
            },
            LeaderError::SetGidFailed { gid, cause } => LeaderErrorView::SetGidFailed {
                gid: *gid,
                cause: cause@,
            },
            LeaderError::SetUidFailed { uid, cause } => LeaderErrorView::SetUidFailed {
                uid: *uid,
                cause: cause@,
            },
            LeaderError::UidNotDropped { actual, effective, want } => LeaderErrorView::UidNotDropped {
                actual: *actual,
                effective: *effective,
                want: *want,
            },
            LeaderError::GidNotDropped { actual, effective, want } => LeaderErrorView::GidNotDropped {
                actual: *actual,
                effective: *effective,
                want: *want,
            },
            LeaderError::PrivilegeRetained => LeaderErrorView::PrivilegeRetained,
        }
    }
}

/// The line that says which ids a process holds and which it was to hold.
pub open spec fn ids_line(what: Seq<char>, actual: u32, effective: u32, want: u32) -> Seq<char> {
    what + " did not drop: real="@ + decimal(actual as nat) + " effective="@ + decimal(
        effective as nat,
    ) + " want="@ + decimal(want as nat)
}

impl LeaderErrorView {
    pub open spec fn message(self) -> Seq<char> {
        match self {
            LeaderErrorView::NotADrop =>
                "refusing to 'drop' privilege to uid 0 — that is not a drop"@,
            LeaderErrorView::SetGroupsFailed { cause } => "setgroups(0) failed: "@ + cause,
            LeaderErrorView::SetGidFailed { gid, cause } => "setgid("@ + decimal(gid as nat)
                + ") failed: "@ + cause,
            LeaderErrorView::SetUidFailed { uid, cause } => "setuid("@ + decimal(uid as nat)
                + ") failed: "@ + cause,
            LeaderErrorView::UidNotDropped { actual, effective, want } => ids_line(
                "uid"@,
                actual,
                effective,
                want,
            ),
            LeaderErrorView::GidNotDropped { actual, effective, want } => ids_line(
                "gid"@,
                actual,
                effective,
                want,
            ),
            LeaderErrorView::PrivilegeRetained =>
                "PRIVILEGE RETAINED: setuid(0) succeeded after the drop — the session must not start"@,
        }
    }
}

fn ids_text(what: &str, actual: u32, effective: u32, want: u32) -> (r: String)
    ensures
        r@ == ids_line(what@, actual, effective, want),
{
    let mut r = what.to_owned();
    r.append(" did not drop: real=");
    r.append(decimal_text(actual as u128).as_str());
    r.append(" effective=");
    r.append(decimal_text(effective as u128).as_str());
    r.append(" want=");
    r.append(decimal_text(want as u128).as_str());
    r
}

impl LeaderError {
    /// The reason in words.
    pub fn message(&self) -> (r: String)
        ensures
            r@ == self@.message(),
    {
        match self {
            LeaderError::NotADrop =>
                "refusing to 'drop' privilege to uid 0 — that is not a drop".to_owned(),
            LeaderError::SetGroupsFailed { cause } => {
                let mut r = "setgroups(0) failed: ".to_owned();
                r.append(cause.as_str());
                r
            },
            LeaderError::SetGidFailed { gid, cause } => {
                let mut r = "setgid(".to_owned();
                r.append(decimal_text(*gid as u128).as_str());
                r.append(") failed: ");
                r.append(cause.as_str());
                r
            },
            LeaderError::SetUidFailed { uid, cause } => {
                let mut r = "setuid(".to_owned();
                r.append(decimal_text(*uid as u128).as_str());
                r.append(") failed: ");
                r.append(cause.as_str());
                r
            },
            LeaderError::UidNotDropped { actual, effective, want } => ids_text(
                "uid",
                *actual,
                *effective,
                *want,
            ),
            LeaderError::GidNotDropped { actual, effective, want } => ids_text(
                "gid",
                *actual,
                *effective,
                *want,
            ),
            LeaderError::PrivilegeRetained =>
                "PRIVILEGE RETAINED: setuid(0) succeeded after the drop — the session must not start".to_owned(),
        }
    }
}

#[derive(Debug)]
enum Phase {
    Dropping(usize),
    ReadingIds,
    RegainingRoot,
    Dropped,
    Refused(LeaderError),
}

/// How far a drop has come.
pub enum PhaseView {
    /// The step of [`DROP_ORDER`] at this position comes next.
    Dropping(int),
    ReadingIds,
    RegainingRoot,
    /// The privilege is gone, and that has been proved.
    Dropped,
    /// The session must not start.
    Refused(LeaderErrorView),
}

/// A permanent drop of privilege, followed by the proof that it is irreversible.
#[derive(Debug)]
pub struct PrivilegeDrop {
    id: Identity,
    phase: Phase,
}

pub struct PrivilegeDropView {
    pub id: Identity,
    pub phase: PhaseView,
}

impl View for PrivilegeDrop {
    type V = PrivilegeDropView;

    closed spec fn view(&self) -> PrivilegeDropView {
        PrivilegeDropView {
            id: self.id,
            phase: match self.phase {
                Phase::Dropping(i) => PhaseView::Dropping(i as int),
                Phase::ReadingIds => PhaseView::ReadingIds,
                Phase::RegainingRoot => PhaseView::RegainingRoot,
                Phase::Dropped => PhaseView::Dropped,
                Phase::Refused(e) => PhaseView::Refused(e@),
            },
        }
    }
}

/// The system call of a step.
pub open spec fn call_of(step: DropStep, id: Identity) -> Call {
    match step {
        DropStep::SetGroups => Call::SetGroups,
        DropStep::SetGid => Call::SetGid(id.gid),
        DropStep::SetUid => Call::SetUid(id.uid),
    }
}

/// The error of a step that failed.
pub open spec fn failure_of(step: DropStep, id: Identity, cause: Seq<char>) -> LeaderErrorView {
    match step {
        DropStep::SetGroups => LeaderErrorView::SetGroupsFailed { cause },
        DropStep::SetGid => LeaderErrorView::SetGidFailed { gid: id.gid, cause },
        DropStep::SetUid => LeaderErrorView::SetUidFailed { uid: id.uid, cause },
    }
}

impl PrivilegeDropView {
    /// The start of a drop to `id`.
    pub open spec fn begin(id: Identity) -> PrivilegeDropView {
        PrivilegeDropView { id, phase: PhaseView::Dropping(0) }
    }

    /// The start of the proof that a drop to `id` is irreversible.
    pub open spec fn begin_proof(id: Identity) -> PrivilegeDropView {
        PrivilegeDropView { id, phase: PhaseView::ReadingIds }
    }

    /// The call that comes next; none once the outcome is known.
    pub open spec fn next_call(self) -> Option<Call> {
        match self.phase {
            PhaseView::Dropping(i) => Some(call_of(DROP_ORDER@[i], self.id)),
            PhaseView::ReadingIds => Some(Call::ReadIds),
            PhaseView::RegainingRoot => Some(Call::RegainRoot),
            _ => None,
        }
    }

    /// After a call returned: with success, or with the cause of its failure.
    pub open spec fn returned(self, failure: Option<Seq<char>>) -> PrivilegeDropView {
        let phase = match self.phase {
            PhaseView::Dropping(i) => match failure {
                Some(cause) => PhaseView::Refused(failure_of(DROP_ORDER@[i], self.id, cause)),
                None => if i + 1 < DROP_ORDER@.len() {
                    PhaseView::Dropping(i + 1)
                } else {
                    PhaseView::ReadingIds
                },
            },
            PhaseView::RegainingRoot => match failure {
                Some(_) => PhaseView::Dropped,
                None => PhaseView::Refused(LeaderErrorView::PrivilegeRetained),
            },
            other => other,
        };
        PrivilegeDropView { phase, ..self }
    }

    /// After the ids were read.
    pub open spec fn told_ids(self, ids: ProcessIds) -> PrivilegeDropView {
        let phase = match self.phase {
            PhaseView::ReadingIds => if ids.uid != self.id.uid || ids.euid != self.id.uid {
                PhaseView::Refused(
                    LeaderErrorView::UidNotDropped {
                        actual: ids.uid,
                        effective: ids.euid,
                        want: self.id.uid,
                    },
                )
            } else if ids.gid != self.id.gid || ids.egid != self.id.gid {
                PhaseView::Refused(
                    LeaderErrorView::GidNotDropped {
                        actual: ids.gid,
                        effective: ids.egid,
                        want: self.id.gid,
                    },
                )
            } else {
                PhaseView::RegainingRoot
            },
            other => other,
        };
        PrivilegeDropView { phase, ..self }
    }
}

impl PrivilegeDrop {
    #[verifier::type_invariant]
    closed spec fn step_exists(self) -> bool {
        self.phase matches Phase::Dropping(i) ==> i < 3
    }

    /// The call that comes next; none once the outcome is known.
    pub fn next_call(&self) -> (r: Option<Call>)
        ensures
            r == self@.next_call(),
    {
        proof {
            use_type_invariant(self);
        }
        match self.phase {
            Phase::Dropping(i) => Some(
                match DROP_ORDER[i] {
                    DropStep::SetGroups => Call::SetGroups,
                    DropStep::SetGid => Call::SetGid(self.id.gid),
                    DropStep::SetUid => Call::SetUid(self.id.uid),
                },
            ),
            Phase::ReadingIds => Some(Call::ReadIds),
            Phase::RegainingRoot => Some(Call::RegainRoot),
            _ => None,
        }
    }

    /// Takes what a call returned: nothing on success, else the cause of the failure.
    ///
    /// The attempt to regain root must fail: its success ends the drop with an error.
    pub fn on_return(&mut self, failure: Option<String>)
        ensures
            final(self)@ == old(self)@.returned(opt_text(failure)),
    {
        proof {
            use_type_invariant(&*self);
        }
        match self.phase {
            Phase::Dropping(i) => {
                match failure {
                    None => {
                        if i + 1 < 3 {
                            self.phase = Phase::Dropping(i + 1);
                        } else {
                            self.phase = Phase::ReadingIds;
                        }
                    },
                    Some(cause) => {
                        let e = match DROP_ORDER[i] {
                            DropStep::SetGroups => LeaderError::SetGroupsFailed { cause },
                            DropStep::SetGid => LeaderError::SetGidFailed {
                                gid: self.id.gid,
                                cause,
                            },
                            DropStep::SetUid => LeaderError::SetUidFailed {
                                uid: self.id.uid,
                                cause,
                            },
                        };
                        self.phase = Phase::Refused(e);
                    },
                }
            },
            Phase::RegainingRoot => {
                if failure.is_some() {
                    self.phase = Phase::Dropped;
                } else {
                    self.phase = Phase::Refused(LeaderError::PrivilegeRetained);
                }
            },
            _ => {},
        }
    }

    /// Takes the ids that were read. All four must be the target's.
    pub fn on_ids(&mut self, ids: ProcessIds)
        ensures
            final(self)@ == old(self)@.told_ids(ids),
    {
        match self.phase {
            Phase::ReadingIds => {
                let id = self.id;
                if ids.uid != id.uid || ids.euid != id.uid {
                    self.phase = Phase::Refused(
                        LeaderError::UidNotDropped {
                            actual: ids.uid,
                            effective: ids.euid,
                            want: id.uid,
                        },
                    );
                } else if ids.gid != id.gid || ids.egid != id.gid {
                    self.phase = Phase::Refused(
                        LeaderError::GidNotDropped {
                            actual: ids.gid,
                            effective: ids.egid,
                            want: id.gid,
                        },
                    );
                } else {
                    self.phase = Phase::RegainingRoot;
                }
            },
            _ => {},
        }
    }

    /// The outcome, once there is no call left to make.
    pub fn outcome(self) -> (r: Option<Result<(), LeaderError>>)
        ensures
            match self@.phase {
                PhaseView::Dropped => r == Some(Ok::<(), LeaderError>(())),
                PhaseView::Refused(e) => r matches Some(Err(got)) && got@ == e,
                _ => r is None,
            },
    {
        match self.phase {
            Phase::Dropped => Some(Ok(())),
            Phase::Refused(e) => Some(Err(e)),
            _ => None,
        }
    }
}

/// Begins to drop to `id` permanently, with the proof that the drop is irreversible to follow.
///
/// Root is no target: that would not be a drop.
pub fn drop_privileges_permanently(id: Identity) -> (r: Result<PrivilegeDrop, LeaderError>)
    ensures
        r is Err <==> id.uid == 0,
        r matches Ok(d) ==> d@ == PrivilegeDropView::begin(id),
        r matches Err(e) ==> e@ == LeaderErrorView::NotADrop,
{
    if id.uid == 0 {
        return Err(LeaderError::NotADrop);
    }
    Ok(PrivilegeDrop { id, phase: Phase::Dropping(0) })
}

/// Begins to confirm that the process cannot climb back to root.
///
/// Checked two ways, because either alone can pass while privilege is retained: the ids must be
/// the target's, and an explicit attempt to regain root must fail.
pub fn verify_irreversible(id: Identity) -> (r: PrivilegeDrop)
    ensures
        r@ == PrivilegeDropView::begin_proof(id),
{
    PrivilegeDrop { id, phase: Phase::ReadingIds }
}

/// What the system answers to a call.
pub enum Answer {
    /// The call returned: with success, or with the cause of its failure.
    Returned(Option<Seq<char>>),
    Ids(ProcessIds),
}

impl PrivilegeDropView {
    pub open spec fn answered(self, answer: Answer) -> PrivilegeDropView {
        match answer {
            Answer::Returned(failure) => self.returned(failure),
            Answer::Ids(ids) => self.told_ids(ids),
        }
    }

    /// The answers are given to the calls that this drop asks for, one each.
    pub open spec fn fits(self, answers: Seq<Answer>) -> bool
        decreases answers.len(),
    {
        if answers.len() == 0 {
            true
        } else {
            &&& match self.next_call() {
                None => false,
                Some(Call::ReadIds) => answers[0] is Ids,
                Some(_) => answers[0] is Returned,
            }
            &&& self.answered(answers[0]).fits(answers.skip(1))
        }
    }

    /// The drop after these answers.
    pub open spec fn after(self, answers: Seq<Answer>) -> PrivilegeDropView
        decreases answers.len(),
    {
        if answers.len() == 0 {
            self
        } else {
            self.answered(answers[0]).after(answers.skip(1))
        }
    }

    /// The calls that are made while these answers come in.
    pub open spec fn calls(self, answers: Seq<Answer>) -> Seq<Call>
        decreases answers.len(),
    {
        if answers.len() == 0 {
            Seq::empty()
        } else {
            seq![self.next_call()->0] + self.answered(answers[0]).calls(answers.skip(1))
        }
    }
}

/// All calls of a drop that succeeds, in order.
pub open spec fn full_order(id: Identity) -> Seq<Call> {
    seq![Call::SetGroups, Call::SetGid(id.gid), Call::SetUid(id.uid), Call::ReadIds, Call::RegainRoot]
}

/// The position in [`full_order`] that a phase stands at.
spec fn position(phase: PhaseView) -> int {
    match phase {
        PhaseView::Dropping(i) => i,
        PhaseView::ReadingIds => 3,
        PhaseView::RegainingRoot => 4,
        _ => 5,
    }
}

spec fn in_order(d: PrivilegeDropView) -> bool {
    d.phase matches PhaseView::Dropping(i) ==> 0 <= i < 3
}

proof fn lemma_calls_from(d: PrivilegeDropView, answers: Seq<Answer>)
    requires
        in_order(d),
        d.fits(answers),
    ensures
        d.calls(answers).is_prefix_of(full_order(d.id).skip(position(d.phase))),
    decreases answers.len(),
{
    if answers.len() > 0 {
        let next = d.answered(answers[0]);
        let rest = full_order(d.id).skip(position(d.phase));
        lemma_calls_from(next, answers.skip(1));
        assert(rest.len() > 0 && rest[0] == d.next_call()->0);
        let tail = next.calls(answers.skip(1));
        if next.phase is Refused || next.phase is Dropped {
            assert(full_order(d.id).skip(5) =~= Seq::empty());
        } else {
            assert(full_order(d.id).skip(position(next.phase)) =~= rest.skip(1));
        }
        assert(tail.is_prefix_of(rest.skip(1)));
        assert(seq![rest[0]] + tail =~= rest.subrange(0, 1 + tail.len() as int));
    }
}

/// Whatever the system answers, the calls of a drop are made in the one safe order: the groups
/// before the group id, the group id before the user id, the proof after all three, and none is
/// left out on the way.
pub proof fn law_calls_keep_the_safe_order(id: Identity, answers: Seq<Answer>)
    requires
        PrivilegeDropView::begin(id).fits(answers),
    ensures
        PrivilegeDropView::begin(id).calls(answers).is_prefix_of(full_order(id)),
{
    lemma_calls_from(PrivilegeDropView::begin(id), answers);
    assert(full_order(id).skip(0) =~= full_order(id));
}

/// A drop is reported as done only after every step succeeded, all ids were read as the target's
/// and the attempt to regain root failed. In particular it never is while root can be regained.
pub proof fn law_done_only_when_root_is_gone(id: Identity, answers: Seq<Answer>)
    requires
        PrivilegeDropView::begin(id).fits(answers),
        PrivilegeDropView::begin(id).after(answers).phase is Dropped,
    ensures
        answers.len() == 5,
        forall|i: int| 0 <= i < 3 ==> #[trigger] answers[i] == Answer::Returned(None),
        answers[3] == Answer::Ids(
            ProcessIds { uid: id.uid, euid: id.uid, gid: id.gid, egid: id.gid },
        ),
        answers[4] matches Answer::Returned(Some(_)),
{
    reveal_with_fuel(PrivilegeDropView::fits, 5);
    reveal_with_fuel(PrivilegeDropView::after, 5);
    let start = PrivilegeDropView::begin(id);
    let a = answers;
    assert(a.len() > 0);
    let s1 = start.answered(a[0]);
    let a1 = a.skip(1);
    lemma_refused_is_final(s1, a1);
    assert(a1.len() > 0 && a1[0] == a[1]);
    let s2 = s1.answered(a1[0]);
    let a2 = a1.skip(1);
    lemma_refused_is_final(s2, a2);
    assert(a2.len() > 0 && a2[0] == a[2]);
    let s3 = s2.answered(a2[0]);
    let a3 = a2.skip(1);
    lemma_refused_is_final(s3, a3);
    lemma_proof_done(id, s3, a3);
    assert(a3[0] == a[3] && a3[1] == a[4]);
}

proof fn lemma_proof_done(id: Identity, d: PrivilegeDropView, answers: Seq<Answer>)
    requires
        d == PrivilegeDropView::begin_proof(id),
        d.fits(answers),
        d.after(answers).phase is Dropped,
    ensures
        answers.len() == 2,
        answers[0] == Answer::Ids(
            ProcessIds { uid: id.uid, euid: id.uid, gid: id.gid, egid: id.gid },
        ),
        answers[1] matches Answer::Returned(Some(_)),
{
    reveal_with_fuel(PrivilegeDropView::fits, 4);
    reveal_with_fuel(PrivilegeDropView::after, 4);
    assert(answers.len() > 0);
    let d1 = d.answered(answers[0]);
    let a1 = answers.skip(1);
    lemma_refused_is_final(d1, a1);
    assert(a1.len() > 0 && a1[0] == answers[1]);
    let d2 = d1.answered(a1[0]);
    lemma_refused_is_final(d2, a1.skip(1));
    assert(a1.skip(1).len() == 0);
}

proof fn lemma_refused_is_final(d: PrivilegeDropView, answers: Seq<Answer>)
    requires
        d.fits(answers),
    ensures
        d.phase is Refused ==> d.after(answers).phase is Refused,
{
}

/// The proof alone is as strict: it ends well only if all ids were read as the target's and the
/// attempt to regain root failed.
pub proof fn law_irreversible_only_when_root_is_gone(id: Identity, answers: Seq<Answer>)
    requires
        PrivilegeDropView::begin_proof(id).fits(answers),
        PrivilegeDropView::begin_proof(id).after(answers).phase is Dropped,
    ensures
        answers.len() == 2,
        answers[0] == Answer::Ids(
            ProcessIds { uid: id.uid, euid: id.uid, gid: id.gid, egid: id.gid },
        ),
        answers[1] matches Answer::Returned(Some(_)),
{
    lemma_proof_done(id, PrivilegeDropView::begin_proof(id), answers);
}

/// A call that fails on the way ends the drop with an error that names it; nothing else is called
/// after it.
pub proof fn law_a_failed_step_ends_the_drop(id: Identity, i: int, cause: Seq<char>)
    requires
        0 <= i < 3,
    ensures
        ({
            let stopped = (PrivilegeDropView { id, phase: PhaseView::Dropping(i) }).returned(
                Some(cause),
            );
            &&& stopped.phase == PhaseView::Refused(failure_of(DROP_ORDER@[i], id, cause))
            &&& stopped.next_call() is None
        }),
{
}

/// The names and values of a list of variables.
pub open spec fn variables(list: Seq<(String, String)>) -> Seq<(Seq<char>, Seq<char>)> {
    list.map_values(|v: (String, String)| (v.0@, v.1@))
}

/// The environment that a session must carry before it is opened.
///
/// The session class is load-bearing: without it the session gets the wrong class, and the
/// per-user tree that owns the desktop's units is never started.
pub fn session_env(user: &str) -> (r: Vec<(String, String)>)
    ensures
        variables(r@) == seq![
            ("XDG_SESSION_CLASS"@, "user"@),
            ("XDG_SESSION_TYPE"@, "wayland"@),
            ("USER"@, user@),
        ],
{
    let r = vec![
        ("XDG_SESSION_CLASS".to_owned(), "user".to_owned()),
        ("XDG_SESSION_TYPE".to_owned(), "wayland".to_owned()),
        ("USER".to_owned(), user.to_owned()),
    ];
    assert(variables(r@) =~= seq![
        ("XDG_SESSION_CLASS"@, "user"@),
        ("XDG_SESSION_TYPE"@, "wayland"@),
        ("USER"@, user@),
    ]);
    r
}

/// Who asks for a session, and of which service.
#[derive(Debug, PartialEq, Eq)]
pub struct LoginRequest {
    pub service: String,
    pub user: String,
    pub password: String,
}

/// The line that the leader prints, and its exit code.
#[derive(Debug, PartialEq, Eq)]
pub struct Report {
    pub line: String,
    pub code: u8,
}

/// Authenticated, account permitted, session opened.
pub const EXIT_OPENED: u8 = 0;

/// Authentication or account management refused.
pub const EXIT_REFUSED: u8 = 1;

/// Usage or environment error.
pub const EXIT_USAGE: u8 = 2;

/// Reads the leader's command line: the program's own name and three arguments, else the report
/// of how it is used.
pub fn read_arguments(args: &Vec<String>) -> (r: Result<LoginRequest, Report>)
    ensures
        r is Ok <==> args@.len() == 4,
        r matches Ok(login) ==> login.service@ == args@[1]@ && login.user@ == args@[2]@
            && login.password@ == args@[3]@,
        r matches Err(report) ==> report.code == EXIT_USAGE && report.line@
            == "usage: cstream-leader <service> <user> <password>"@,
{
    if args.len() != 4 {
        return Err(
            Report {
                line: "usage: cstream-leader <service> <user> <password>".to_owned(),
                code: EXIT_USAGE,
            },
        );
    }
    Ok(
        LoginRequest {
            service: args[1].clone(),
            user: args[2].clone(),
            password: args[3].clone(),
        },
    )
}

/// Reports the outcome of a login: opened, or the cause of the refusal.
pub fn report_login(login: &LoginRequest, outcome: Result<(), String>) -> (r: Report)
    ensures
        outcome is Ok ==> r.code == EXIT_OPENED && r.line@ == "LEADER-AUTH-OK user="@ + login.user@
            + " service="@ + login.service@,
        outcome matches Err(cause) ==> r.code == EXIT_REFUSED && r.line@ == "LEADER-AUTH-FAIL "@
            + cause@,
{
    match outcome {
        Ok(_) => {
            let mut line = "LEADER-AUTH-OK user=".to_owned();
            line.append(login.user.as_str());
            line.append(" service=");
            line.append(login.service.as_str());
            Report { line, code: EXIT_OPENED }
        },
        Err(cause) => {
            let mut line = "LEADER-AUTH-FAIL ".to_owned();
            line.append(cause.as_str());
            Report { line, code: EXIT_REFUSED }
        },
    }
}

/// The answers by which a drop to `id` succeeds: each step succeeds, all four ids are the target's,
/// and root cannot be regained.
pub open spec fn all_is_well(id: Identity, answers: Seq<Answer>) -> bool {
    &&& answers.len() == 5
    &&& answers[0] == Answer::Returned(None)
    &&& answers[1] == Answer::Returned(None)
    &&& answers[2] == Answer::Returned(None)
    &&& proof_is_well(id, answers.skip(3))
}

/// The answers by which the proof of a drop to `id` succeeds.
pub open spec fn proof_is_well(id: Identity, answers: Seq<Answer>) -> bool {
    &&& answers.len() == 2
    &&& answers[0] == Answer::Ids(
        ProcessIds { uid: id.uid, euid: id.uid, gid: id.gid, egid: id.gid },
    )
    &&& answers[1] matches Answer::Returned(Some(_))
}

/// A drop is done exactly when every step succeeded, all ids are the target's and root cannot be
/// regained: nobody is refused for whom that holds, and nobody else is let through.
pub proof fn law_a_drop_is_done_exactly_when_root_is_gone(id: Identity, answers: Seq<Answer>)
    ensures
        PrivilegeDropView::begin(id).fits(answers) && PrivilegeDropView::begin(id).after(
            answers,
        ).phase is Dropped <==> all_is_well(id, answers),
        PrivilegeDropView::begin_proof(id).fits(answers) && PrivilegeDropView::begin_proof(
            id,
        ).after(answers).phase is Dropped <==> proof_is_well(id, answers),
{
    let start = PrivilegeDropView::begin(id);
    if start.fits(answers) && start.after(answers).phase is Dropped {
        law_done_only_when_root_is_gone(id, answers);
        assert(answers.skip(3)[0] == answers[3] && answers.skip(3)[1] == answers[4]);
        assert(answers[0] == Answer::Returned(None) && answers[1] == Answer::Returned(None)
            && answers[2] == Answer::Returned(None));
    }
    if all_is_well(id, answers) {
        lemma_steps_succeed(id, answers);
        lemma_proof_succeeds(id, answers.skip(3));
    }
    if PrivilegeDropView::begin_proof(id).fits(answers) && PrivilegeDropView::begin_proof(id).after(
        answers,
    ).phase is Dropped {
        law_irreversible_only_when_root_is_gone(id, answers);
    }
    if proof_is_well(id, answers) {
        lemma_proof_succeeds(id, answers);
    }
}

proof fn lemma_proof_succeeds(id: Identity, answers: Seq<Answer>)
    requires
        proof_is_well(id, answers),
    ensures
        PrivilegeDropView::begin_proof(id).fits(answers),
        PrivilegeDropView::begin_proof(id).after(answers).phase is Dropped,
{
    reveal_with_fuel(PrivilegeDropView::fits, 4);
    reveal_with_fuel(PrivilegeDropView::after, 4);
    let rest = answers.skip(1);
    assert(rest[0] == answers[1]);
    assert(rest.skip(1).len() == 0);
}

proof fn lemma_steps_succeed(id: Identity, answers: Seq<Answer>)
    requires
        answers.len() >= 3,
        answers[0] == Answer::Returned(None),
        answers[1] == Answer::Returned(None),
        answers[2] == Answer::Returned(None),
    ensures
        PrivilegeDropView::begin(id).after(answers) == PrivilegeDropView::begin_proof(id).after(
            answers.skip(3),
        ),
        PrivilegeDropView::begin(id).fits(answers) == PrivilegeDropView::begin_proof(id).fits(
            answers.skip(3),
        ),
{
    reveal_with_fuel(PrivilegeDropView::fits, 4);
    reveal_with_fuel(PrivilegeDropView::after, 4);
    let one = answers.skip(1);
    let two = one.skip(1);
    assert(one[0] == answers[1] && two[0] == answers[2]);
    assert(two.skip(1) == answers.skip(3));
}

/// Why a drop is refused, for each answer that is not the wanted one.
pub proof fn law_a_refusal_names_the_answer(id: Identity, cause: Seq<char>, ids: ProcessIds)
    ensures
        ({
            let start = PrivilegeDropView::begin(id);
            let one = start.returned(None);
            let two = one.returned(None);
            let dropped = two.returned(None);
            let target = ProcessIds { uid: id.uid, euid: id.uid, gid: id.gid, egid: id.gid };
            &&& start.next_call() == Some(Call::SetGroups)
            &&& one.next_call() == Some(Call::SetGid(id.gid))
            &&& two.next_call() == Some(Call::SetUid(id.uid))
            &&& start.returned(Some(cause)).phase == PhaseView::Refused(
                LeaderErrorView::SetGroupsFailed { cause },
            )
            &&& one.returned(Some(cause)).phase == PhaseView::Refused(
                LeaderErrorView::SetGidFailed { gid: id.gid, cause },
            )
            &&& two.returned(Some(cause)).phase == PhaseView::Refused(
                LeaderErrorView::SetUidFailed { uid: id.uid, cause },
            )
            &&& dropped == PrivilegeDropView::begin_proof(id)
            &&& dropped.next_call() == Some(Call::ReadIds)
            &&& ids.uid != id.uid || ids.euid != id.uid ==> dropped.told_ids(ids).phase
                == PhaseView::Refused(
                LeaderErrorView::UidNotDropped {
                    actual: ids.uid,
                    effective: ids.euid,
                    want: id.uid,
                },
            )
            &&& ids.uid == id.uid && ids.euid == id.uid && (ids.gid != id.gid || ids.egid != id.gid)
                ==> dropped.told_ids(ids).phase == PhaseView::Refused(
                LeaderErrorView::GidNotDropped {
                    actual: ids.gid,
                    effective: ids.egid,
                    want: id.gid,
                },
            )
            &&& dropped.told_ids(target).next_call() == Some(Call::RegainRoot)
            &&& dropped.told_ids(target).returned(None).phase == PhaseView::Refused(
                LeaderErrorView::PrivilegeRetained,
            )
            &&& dropped.told_ids(target).returned(Some(cause)).phase == PhaseView::Dropped
        }),
{
}

/// A drop whose outcome is known asks for no call, and no answer changes it; one that asks for none
/// has its outcome.
pub proof fn law_an_outcome_is_final(d: PrivilegeDropView, answer: Answer)
    ensures
        d.next_call() is None <==> d.phase is Dropped || d.phase is Refused,
        d.phase is Dropped || d.phase is Refused ==> d.answered(answer) == d,
        d.answered(answer).id == d.id,
{
}

/// Each error has its own words, with the ids and the cause that it is about.
pub proof fn law_a_leader_error_says_what_went_wrong(cause: Seq<char>, a: u32, b: u32, c: u32)
    ensures
        LeaderErrorView::NotADrop.message()
            == "refusing to 'drop' privilege to uid 0 — that is not a drop"@,
        (LeaderErrorView::SetGroupsFailed { cause }).message() == "setgroups(0) failed: "@ + cause,
        (LeaderErrorView::SetGidFailed { gid: a, cause }).message() == "setgid("@ + decimal(
            a as nat,
        ) + ") failed: "@ + cause,
        (LeaderErrorView::SetUidFailed { uid: a, cause }).message() == "setuid("@ + decimal(
            a as nat,
        ) + ") failed: "@ + cause,
        (LeaderErrorView::UidNotDropped { actual: a, effective: b, want: c }).message() == "uid"@
            + " did not drop: real="@ + decimal(a as nat) + " effective="@ + decimal(b as nat)
            + " want="@ + decimal(c as nat),
        (LeaderErrorView::GidNotDropped { actual: a, effective: b, want: c }).message() == "gid"@
            + " did not drop: real="@ + decimal(a as nat) + " effective="@ + decimal(b as nat)
            + " want="@ + decimal(c as nat),
        LeaderErrorView::PrivilegeRetained.message()
            == "PRIVILEGE RETAINED: setuid(0) succeeded after the drop — the session must not start"@,
{
}

/// Errors and variables stand for themselves.
pub proof fn law_leader_errors_stand_for_themselves(
    cause: String,
    a: u32,
    b: u32,
    c: u32,
    list: Seq<(String, String)>,
)
    ensures
        LeaderError::NotADrop@ == LeaderErrorView::NotADrop,
        (LeaderError::SetGroupsFailed { cause })@ == (LeaderErrorView::SetGroupsFailed {
            cause: cause@,
        }),
        (LeaderError::SetGidFailed { gid: a, cause })@ == (LeaderErrorView::SetGidFailed {
            gid: a,
            cause: cause@,
        }),
        (LeaderError::SetUidFailed { uid: a, cause })@ == (LeaderErrorView::SetUidFailed {
            uid: a,
            cause: cause@,
        }),
        (LeaderError::UidNotDropped { actual: a, effective: b, want: c })@ == (
        LeaderErrorView::UidNotDropped { actual: a, effective: b, want: c }),
        (LeaderError::GidNotDropped { actual: a, effective: b, want: c })@ == (
        LeaderErrorView::GidNotDropped { actual: a, effective: b, want: c }),
        LeaderError::PrivilegeRetained@ == LeaderErrorView::PrivilegeRetained,
        variables(list).len() == list.len(),
        forall|i: int|
            0 <= i < list.len() ==> #[trigger] variables(list)[i] == (list[i].0@, list[i].1@),
{
}

}
