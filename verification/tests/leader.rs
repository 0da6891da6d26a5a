//! Privilege-drop contract: the properties that fail silently.

use cstream::leader::{
    drop_privileges_permanently, read_arguments, report_login, session_env, verify_irreversible,
    Call, DropStep, Identity, LeaderError, PrivilegeDrop, ProcessIds, DROP_ORDER,
};

const NOBODY: Identity = Identity {
    uid: 65534,
    gid: 65534,
};

/// A process that answers a drop's calls.
struct Process {
    ids: ProcessIds,
    /// The call that fails, if any.
    fails: Option<Call>,
    /// Whether a saved user id lets it climb back to root.
    saved_root: bool,
    calls: Vec<Call>,
}

impl Process {
    fn root() -> Self {
        Process {
            ids: ProcessIds {
                uid: 0,
                euid: 0,
                gid: 0,
                egid: 0,
            },
            fails: None,
            saved_root: false,
            calls: Vec::new(),
        }
    }

    fn run(&mut self, mut drop: PrivilegeDrop) -> Result<(), LeaderError> {
        while let Some(call) = drop.next_call() {
            self.calls.push(call);
            if self.fails == Some(call) {
                drop.on_return(Some("Operation not permitted (os error 1)".to_string()));
                continue;
            }
            match call {
                Call::SetGroups => drop.on_return(None),
                Call::SetGid(gid) => {
                    self.ids.gid = gid;
                    self.ids.egid = gid;
                    drop.on_return(None);
                }
                Call::SetUid(uid) => {
                    self.ids.uid = uid;
                    self.ids.euid = uid;
                    drop.on_return(None);
                }
                Call::ReadIds => drop.on_ids(self.ids),
                Call::RegainRoot => {
                    if self.saved_root {
                        drop.on_return(None);
                    } else {
                        drop.on_return(Some("Operation not permitted".to_string()));
                    }
                }
            }
        }
        drop.outcome().expect("no call is left, so the outcome is known")
    }
}

#[test]
fn drop_order_surrenders_groups_before_identity() {
    assert_eq!(
        DROP_ORDER,
        [DropStep::SetGroups, DropStep::SetGid, DropStep::SetUid],
        "setuid must come LAST — after it the process cannot change groups any more"
    );
    let uid_at = DROP_ORDER
        .iter()
        .position(|s| *s == DropStep::SetUid)
        .unwrap();
    let grp_at = DROP_ORDER
        .iter()
        .position(|s| *s == DropStep::SetGroups)
        .unwrap();
    let gid_at = DROP_ORDER
        .iter()
        .position(|s| *s == DropStep::SetGid)
        .unwrap();
    assert!(
        grp_at < gid_at && gid_at < uid_at,
        "groups -> gid -> uid is the only safe order"
    );
}

#[test]
fn refuses_to_drop_to_root() {
    let err = drop_privileges_permanently(Identity { uid: 0, gid: 0 })
        .expect_err("dropping to uid 0 must be refused");
    assert!(
        err.message().contains("not a drop"),
        "the refusal must name the reason: {}",
        err.message()
    );
}

#[test]
fn session_env_sets_the_class_logind_needs() {
    let env = session_env("alice");
    assert_eq!(
        env.iter()
            .find(|(k, _)| k == "XDG_SESSION_CLASS")
            .map(|(_, v)| v.as_str()),
        Some("user"),
        "without XDG_SESSION_CLASS=user, user@UID.service never starts"
    );
    assert_eq!(
        env.iter()
            .find(|(k, _)| k == "XDG_SESSION_TYPE")
            .map(|(_, v)| v.as_str()),
        Some("wayland")
    );
    assert_eq!(
        env.iter()
            .find(|(k, _)| k == "USER")
            .map(|(_, v)| v.as_str()),
        Some("alice")
    );
}

#[test]
fn a_failed_drop_is_an_error_not_a_silent_pass() {
    // An unprivileged process is refused at the first step.
    let mut process = Process::root();
    process.fails = Some(Call::SetGroups);
    let drop = drop_privileges_permanently(Identity {
        uid: 65534,
        gid: 65534,
    })
    .unwrap();
    let r = process.run(drop);
    assert!(
        r.is_err(),
        "an unprivileged process cannot drop to another uid; reporting success would be a privilege-retention bug"
    );
    assert_eq!(process.calls, vec![Call::SetGroups]);
}

#[test]
fn a_clean_drop_makes_every_call_once_and_in_order() {
    let mut process = Process::root();
    let drop = drop_privileges_permanently(Identity { uid: 7, gid: 9 }).unwrap();
    assert_eq!(process.run(drop), Ok(()));
    assert_eq!(
        process.calls,
        vec![
            Call::SetGroups,
            Call::SetGid(9),
            Call::SetUid(7),
            Call::ReadIds,
            Call::RegainRoot
        ]
    );
}

#[test]
fn every_failing_step_is_named() {
    for (call, message) in [
        (
            Call::SetGroups,
            "setgroups(0) failed: Operation not permitted (os error 1)",
        ),
        (
            Call::SetGid(65534),
            "setgid(65534) failed: Operation not permitted (os error 1)",
        ),
        (
            Call::SetUid(65534),
            "setuid(65534) failed: Operation not permitted (os error 1)",
        ),
    ] {
        let mut process = Process::root();
        process.fails = Some(call);
        let drop = drop_privileges_permanently(NOBODY).unwrap();
        assert_eq!(process.run(drop).unwrap_err().message(), message);
    }
}

#[test]
fn ids_that_did_not_drop_are_reported() {
    let mut drop = verify_irreversible(NOBODY);
    assert_eq!(drop.next_call(), Some(Call::ReadIds));
    drop.on_ids(ProcessIds {
        uid: 65534,
        euid: 0,
        gid: 65534,
        egid: 65534,
    });
    assert_eq!(
        drop.outcome().unwrap().unwrap_err().message(),
        "uid did not drop: real=65534 effective=0 want=65534"
    );

    let mut drop = verify_irreversible(NOBODY);
    drop.on_ids(ProcessIds {
        uid: 65534,
        euid: 65534,
        gid: 0,
        egid: 65534,
    });
    assert_eq!(
        drop.outcome().unwrap().unwrap_err().message(),
        "gid did not drop: real=0 effective=65534 want=65534"
    );
}

#[test]
fn a_drop_that_can_climb_back_is_an_error() {
    let mut process = Process::root();
    process.saved_root = true;
    let drop = drop_privileges_permanently(NOBODY).unwrap();
    let err = process.run(drop).unwrap_err();
    assert_eq!(err, LeaderError::PrivilegeRetained);
    assert_eq!(
        err.message(),
        "PRIVILEGE RETAINED: setuid(0) succeeded after the drop — the session must not start"
    );
}

#[test]
fn an_unfinished_drop_has_no_outcome() {
    let drop = drop_privileges_permanently(NOBODY).unwrap();
    assert!(drop.outcome().is_none());
}

#[test]
fn the_command_line_needs_exactly_three_arguments() {
    let args = |list: &[&str]| list.iter().map(|s| s.to_string()).collect::<Vec<String>>();
    let report = read_arguments(&args(&["cstream-leader", "svc", "alice"])).unwrap_err();
    assert_eq!(report.code, 2);
    assert_eq!(
        report.line,
        "usage: cstream-leader <service> <user> <password>"
    );
    let login = read_arguments(&args(&["cstream-leader", "svc", "alice", "pw"])).unwrap();
    assert_eq!(
        (
            login.service.as_str(),
            login.user.as_str(),
            login.password.as_str()
        ),
        ("svc", "alice", "pw")
    );
    let opened = report_login(&login, Ok(()));
    assert_eq!(opened.code, 0);
    assert_eq!(opened.line, "LEADER-AUTH-OK user=alice service=svc");
    let refused = report_login(&login, Err("Permission denied".to_string()));
    assert_eq!(refused.code, 1);
    assert_eq!(refused.line, "LEADER-AUTH-FAIL Permission denied");
}
