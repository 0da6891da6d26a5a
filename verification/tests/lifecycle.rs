//! Locking the desktop after the last viewer has left.

use cstream::clock::{Duration, Instant};
use cstream::lifecycle::{
    arm, dispatch_accepted, lock_warning, malformed_warning_line, ArmAction, ArmEvent, HyprIpc, InstanceDir, LockPolicy,
    LockTracker, LOCK_COMMAND,
};

const T0: Instant = Instant {
    nanos: 5_000_000_000,
};

fn after(t: Instant, secs: u64) -> Instant {
    Instant {
        nanos: t.nanos + Duration::from_secs(secs).nanos,
    }
}

fn instance(name: &str, has_socket: bool, modified: Option<i128>) -> InstanceDir {
    InstanceDir {
        name: name.to_string(),
        has_socket,
        modified,
    }
}

#[test]
fn locking_is_off_unless_asked_for() {
    assert_eq!(LockPolicy::from_env(None), None);
    assert_eq!(LockPolicy::from_env(Some("")), None);
    assert_eq!(LockPolicy::from_env(Some("off")), None);
    assert_eq!(LockPolicy::from_env(Some("0")), None);
}

#[test]
fn a_duration_arms_it() {
    let p = LockPolicy::from_env(Some("300")).expect("300 should arm the lock");
    assert_eq!(p.after, Duration::from_secs(300));
}

#[test]
fn the_setting_reads_as_a_number_of_seconds() {
    assert_eq!(
        LockPolicy::from_env(Some(" +007\n")).unwrap().after,
        Duration::from_secs(7)
    );
    let most = u64::MAX.to_string();
    assert_eq!(
        LockPolicy::from_env(Some(&most)).unwrap().after,
        Duration::from_secs(u64::MAX)
    );
    for bad in ["-1", "1.5", "+", "5m", "18446744073709551616", "OFF"] {
        assert_eq!(LockPolicy::from_env(Some(bad)), None);
    }
}

#[test]
fn a_malformed_setting_is_never_silent() {
    assert_eq!(
        lock_warning(Some(" five \"min\" ")).unwrap(),
        "lock: CSTREAM_LOCK_AFTER=\"five \\\"min\\\"\" is not a number of seconds — ignoring, \
         the desktop will NOT auto-lock"
    );
    assert!(lock_warning(Some("18446744073709551616")).is_some());
    for fine in [
        None,
        Some(""),
        Some("  "),
        Some("off"),
        Some("0"),
        Some("300"),
    ] {
        assert_eq!(lock_warning(fine), None);
    }
}

#[test]
fn the_dispatch_names_exec_raw_not_exec() {
    let ipc = HyprIpc {
        socket: String::from("/nonexistent"),
    };
    let cmd = format!(r#"dispatch hl.dsp.exec_raw("{LOCK_COMMAND}")"#);
    assert!(cmd.contains("exec_raw"));
    assert!(!cmd.contains("dsp.exec("));
    // and the command actually sent is built the same way
    let sent = |socket: &str, request: &str| {
        assert_eq!(socket, "/nonexistent");
        assert_eq!(request, cmd);
        Err("No such file or directory".to_string())
    };
    assert!(
        ipc.lock(LOCK_COMMAND, sent).is_err(),
        "no socket at that path"
    );
}

#[test]
fn a_reply_to_the_lock_is_handed_on() {
    let ipc = HyprIpc {
        socket: "/run/x".to_string(),
    };
    let reply = ipc.lock("hyprlock", |socket, request| {
        Ok(format!("{socket} {request}"))
    });
    assert_eq!(
        reply.unwrap(),
        "/run/x dispatch hl.dsp.exec_raw(\"hyprlock\")"
    );
}

#[test]
fn discover_finds_the_socket_under_the_runtime_dir() {
    let listing = vec![instance("abc123_1_2", true, Some(17))];
    let ipc = HyprIpc::discover("/tmp/rt", Ok(listing)).expect("should find the socket");
    assert_eq!(ipc.socket, "/tmp/rt/hypr/abc123_1_2/.socket.sock");
}

#[test]
fn discover_ignores_an_instance_dir_with_no_socket() {
    let listing = vec![instance("dead_instance", false, Some(99))];
    assert!(HyprIpc::discover("/tmp/rt", Ok(listing)).is_err());
}

#[test]
fn discover_reports_a_missing_hypr_dir_rather_than_panicking() {
    let e = HyprIpc::discover("/tmp/rt", Err("No such file or directory".to_string())).unwrap_err();
    assert!(e.message().contains("is Hyprland running?"));
    assert_eq!(
        e.message(),
        "reading /tmp/rt/hypr — is Hyprland running?: No such file or directory"
    );
}

#[test]
fn discover_takes_the_newest_of_several() {
    let listing = vec![
        instance("old", true, Some(-3)),
        instance("new", true, Some(8)),
        instance("undated", true, None),
        instance("socketless", false, Some(100)),
        instance("tie", true, Some(8)),
        instance("middle", true, Some(5)),
    ];
    let ipc = HyprIpc::discover("/rt/", Ok(listing)).unwrap();
    assert_eq!(ipc.socket, "/rt/hypr/tie/.socket.sock");
    let e = HyprIpc::discover("", Ok(Vec::new())).unwrap_err();
    assert_eq!(e.message(), "no .socket.sock under hypr");
}

#[test]
fn it_locks_only_after_the_deadline_and_only_once() {
    let idle = Duration::from_secs(60);
    let t0 = T0;
    let mut k = LockTracker::default();

    k.on_consumer_added();
    assert!(!k.should_lock(t0, idle), "somebody is watching");

    k.on_consumer_removed(t0);
    assert!(!k.should_lock(after(t0, 59), idle), "too early");
    assert!(k.should_lock(after(t0, 60), idle), "deadline reached");
    assert!(
        !k.should_lock(after(t0, 600), idle),
        "must fire ONCE — re-dispatching every tick would fight the user typing a password"
    );
}

#[test]
fn a_second_viewer_leaving_does_not_start_the_clock() {
    let idle = Duration::from_secs(10);
    let t0 = T0;
    let mut k = LockTracker::default();
    k.on_consumer_added();
    k.on_consumer_added();
    k.on_consumer_removed(t0);
    assert!(!k.should_lock(after(t0, 999), idle));
    k.on_consumer_removed(t0);
    assert!(k.should_lock(after(t0, 10), idle));
}

#[test]
fn reconnecting_rearms_the_lock_for_the_next_departure() {
    let idle = Duration::from_secs(5);
    let t0 = T0;
    let mut k = LockTracker::default();
    k.on_consumer_added();
    k.on_consumer_removed(t0);
    assert!(k.should_lock(after(t0, 5), idle));
    // Viewer returns, then leaves again — it must lock a second time.
    k.on_consumer_added();
    let t1 = after(t0, 100);
    k.on_consumer_removed(t1);
    assert!(k.should_lock(after(t1, 5), idle));
}

#[test]
fn a_stray_removal_cannot_underflow_the_count() {
    let mut k = LockTracker::default();
    k.on_consumer_removed(T0);
    assert_eq!(k.consumers(), 0);
}

#[test]
fn a_stray_removal_does_not_put_off_the_lock() {
    let idle = Duration::from_secs(60);
    let mut k = LockTracker::default();
    k.on_consumer_added();
    k.on_consumer_removed(T0);
    k.on_consumer_removed(after(T0, 50));
    assert_eq!(k.consumers(), 0);
    assert!(!k.should_lock(after(T0, 59), idle));
    assert!(k.should_lock(after(T0, 60), idle));
}

#[test]
fn a_stray_removal_does_not_start_the_clock() {
    let mut k = LockTracker::default();
    k.on_consumer_removed(T0);
    assert!(!k.should_lock(after(T0, 60), Duration::from_secs(60)));
}

#[test]
fn nobody_ever_watching_never_locks() {
    let mut k = LockTracker::default();
    assert!(!k.should_lock(after(T0, 1_000_000), Duration::from_secs(0)));
}

#[test]
fn a_clock_that_reads_earlier_counts_as_no_time() {
    let mut k = LockTracker::default();
    k.on_consumer_added();
    k.on_consumer_removed(after(T0, 50));
    assert!(!k.should_lock(T0, Duration::from_secs(1)));
    assert!(k.should_lock(T0, Duration::from_secs(0)));
}

#[test]
fn a_lua_error_reply_is_not_treated_as_success() {
    assert!(!dispatch_accepted(
        r#"error: [string "return hl.dispatch(hl.dsp.exec("hyprlock"))"]:1: attempt to call a nil value (field 'exec')"#
    ));
    assert!(!dispatch_accepted(""));
    assert!(!dispatch_accepted("   "));
    assert!(dispatch_accepted("ok"));
}

#[test]
fn a_reply_is_judged_without_the_space_around_it() {
    assert!(!dispatch_accepted("\u{3000}\n error"));
    assert!(!dispatch_accepted("warning: a nil value here"));
    assert!(dispatch_accepted(" no error\n"));
}

#[test]
fn an_armed_lock_runs_from_departure_to_dispatch() {
    let policy = LockPolicy {
        after: Duration::from_secs(5),
    };
    let mut lock = arm(policy, "/rt".to_string());
    assert!(matches!(
        lock.step(ArmEvent::ConsumerAdded),
        ArmAction::Wait
    ));
    assert!(matches!(
        lock.step(ArmEvent::ConsumerRemoved(T0)),
        ArmAction::Wait
    ));
    assert!(matches!(
        lock.step(ArmEvent::Tick(after(T0, 4))),
        ArmAction::Wait
    ));
    match lock.step(ArmEvent::Tick(after(T0, 5))) {
        ArmAction::List { dir } => assert_eq!(dir, "/rt/hypr"),
        _ => panic!("the deadline has passed"),
    }
    let found = || ArmEvent::Listed(Ok(vec![instance("a", true, Some(1))]));
    match lock.step(found()) {
        ArmAction::Lock(ipc) => assert_eq!(ipc.socket, "/rt/hypr/a/.socket.sock"),
        _ => panic!("the socket is there"),
    }
    let line = |action| match action {
        ArmAction::Log(line) => line,
        _ => panic!("this ends in the log"),
    };
    assert_eq!(
        line(lock.step(ArmEvent::Dispatched(Ok("ok".to_string())))),
        "lock: hyprlock dispatched after idle"
    );
    assert_eq!(
        line(lock.step(ArmEvent::Dispatched(Ok("error: no \n".to_string())))),
        "lock: Hyprland REFUSED the dispatch: error: no"
    );
    assert_eq!(
        line(lock.step(ArmEvent::Dispatched(Err("broken pipe".to_string())))),
        "lock: dispatch failed: broken pipe"
    );
    assert!(
        matches!(lock.step(found()), ArmAction::Wait),
        "nobody asked for this listing"
    );
    assert!(matches!(
        lock.step(ArmEvent::Tick(after(T0, 500))),
        ArmAction::Wait
    ));

    lock.step(ArmEvent::ConsumerAdded);
    lock.step(ArmEvent::ConsumerRemoved(after(T0, 600)));
    assert!(matches!(
        lock.step(ArmEvent::Tick(after(T0, 605))),
        ArmAction::List { .. }
    ));
    assert_eq!(
        line(lock.step(ArmEvent::Listed(Err("gone".to_string())))),
        "lock: cannot reach Hyprland: reading /rt/hypr — is Hyprland running?: gone"
    );
    assert!(
        matches!(lock.step(found()), ArmAction::Wait),
        "a lock that failed is not tried again"
    );
}

#[test]
fn the_warning_holds_the_word_as_it_was_quoted() {
    assert_eq!(
        malformed_warning_line("\"x\""),
        "lock: CSTREAM_LOCK_AFTER=\"x\" is not a number of seconds — ignoring, \
         the desktop will NOT auto-lock"
    );
}

#[test]
fn the_desktop_is_locked_with_the_lock_command() {
    let ipc = HyprIpc {
        socket: "/run/x".to_string(),
    };
    let reply = ipc.lock_desktop(|socket, request| Ok(format!("{socket} {request}")));
    assert_eq!(
        reply.unwrap(),
        "/run/x dispatch hl.dsp.exec_raw(\"hyprlock\")"
    );
    assert_eq!(
        ipc.lock_desktop(|_, _| Err("broken pipe".to_string())),
        Err("broken pipe".to_string())
    );
}

#[test]
fn the_lock_comes_once_until_somebody_returns() {
    let policy = LockPolicy {
        after: Duration::from_secs(5),
    };
    let mut lock = arm(policy, "/rt".to_string());
    let mut sent = Vec::new();
    lock.step(ArmEvent::ConsumerAdded);
    lock.step(ArmEvent::ConsumerRemoved(T0));
    for s in 0..40 {
        if s == 20 {
            lock.step(ArmEvent::ConsumerAdded);
            lock.step(ArmEvent::ConsumerRemoved(after(T0, s)));
        }
        if let ArmAction::List { .. } = lock.step(ArmEvent::Tick(after(T0, s))) {
            let listing = Ok(vec![instance("a", true, Some(1))]);
            if let ArmAction::Lock(_) = lock.step(ArmEvent::Listed(listing)) {
                sent.push(s);
            }
        }
    }
    assert_eq!(sent, vec![5, 25]);
}
