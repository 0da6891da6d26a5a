//! Resizing a running pipeline.

use cstream::clock::{Duration, Instant};
use cstream::control::{
    bind, dispatch, dispatch_poisoned, parse_command, socket_path, unknown_reply, BindStep, Command,
    Control, ControlError, MIN_RESIZE_INTERVAL_MS,
};
use cstream::graph::{Caps, Value};
use cstream::pipeline::Geometry;

const T0: Instant = Instant {
    nanos: 1_000_000_000,
};

fn later(t: Instant, millis: u64) -> Instant {
    Instant {
        nanos: t.nanos + Duration::from_millis(millis).nanos,
    }
}

/// The size filter of the pipeline under control.
struct SizeFilter {
    caps: Caps,
}

impl SizeFilter {
    fn take(&mut self, caps: Option<Caps>) {
        if let Some(caps) = caps {
            self.caps = caps;
        }
    }
}

fn caps_geometry(el: &SizeFilter) -> (i32, i32) {
    let get = |name: &str| match el.caps.structure.get(name) {
        Some(Value::I32(n)) => *n,
        _ => panic!("caps have a size"),
    };
    (get("width"), get("height"))
}

fn fixture() -> (Control, SizeFilter) {
    let start = Geometry {
        width: 1920,
        height: 1080,
        framerate: 60,
    };
    let size = SizeFilter {
        caps: start.dmabuf_caps(),
    };
    (Control::new(start), size)
}

fn resize(
    c: &mut Control,
    size: &mut SizeFilter,
    width: u32,
    height: u32,
    now: Instant,
) -> Result<Geometry, ControlError> {
    let done = c.resize(width, height, now)?;
    size.take(done.caps);
    Ok(done.geometry)
}

#[test]
fn a_resize_rewrites_the_capsfilter_to_the_sanitised_size() {
    let (mut c, mut size) = fixture();
    let g = resize(&mut c, &mut size, 1600, 900, T0).unwrap();
    assert_eq!((g.width, g.height), (1600, 896), "900 rounds down to 896");
    assert_eq!(caps_geometry(&size), (1600, 896));
}

#[test]
fn an_out_of_range_request_is_clamped_and_the_caller_is_told_what_applied() {
    let (mut c, mut size) = fixture();
    let g = resize(&mut c, &mut size, 99999, 99999, T0).unwrap();
    assert_eq!((g.width, g.height), (3840, 2160));
    assert_eq!(caps_geometry(&size), (3840, 2160));

    let (mut c2, mut size2) = fixture();
    let g2 = resize(&mut c2, &mut size2, 1601, 903, T0).unwrap();
    assert_eq!(
        (g2.width, g2.height),
        (1600, 896),
        "rounded down to a multiple of 8"
    );
    assert_eq!(caps_geometry(&size2), (1600, 896));
}

#[test]
fn a_second_resize_inside_the_window_is_refused_and_leaves_the_caps_alone() {
    let (mut c, mut size) = fixture();
    let t0 = T0;
    resize(&mut c, &mut size, 1600, 900, t0).unwrap();
    let err = resize(&mut c, &mut size, 1280, 720, later(t0, 100)).unwrap_err();
    assert!(
        err.message().contains("rate-limited"),
        "got: {}",
        err.message()
    );
    assert_eq!(
        err.message(),
        "resize rate-limited: 100ms since the last applied resize, minimum 500ms \
         (current geometry 1600x896 is unchanged)"
    );
    assert_eq!(
        caps_geometry(&size),
        (1600, 896),
        "the refused resize must not apply"
    );
    assert_eq!(c.current().width, 1600);
}

#[test]
fn the_window_reopens_after_the_interval() {
    let (mut c, mut size) = fixture();
    let t0 = T0;
    resize(&mut c, &mut size, 1600, 900, t0).unwrap();
    let just_before = Instant {
        nanos: later(t0, MIN_RESIZE_INTERVAL_MS).nanos - 1,
    };
    assert!(resize(&mut c, &mut size, 1280, 720, just_before).is_err());
    let g = resize(
        &mut c,
        &mut size,
        1280,
        720,
        later(t0, MIN_RESIZE_INTERVAL_MS),
    )
    .unwrap();
    assert_eq!((g.width, g.height), (1280, 720));
    assert_eq!(caps_geometry(&size), (1280, 720));
}

#[test]
fn a_no_op_resize_is_not_rate_limited() {
    let (mut c, mut size) = fixture();
    let t0 = T0;
    resize(&mut c, &mut size, 1600, 900, t0).unwrap();
    let done = c.resize(1600, 900, later(t0, 1)).unwrap();
    assert_eq!((done.geometry.width, done.geometry.height), (1600, 896));
    assert_eq!(done.caps, None);
}

#[test]
fn the_first_resize_is_never_limited() {
    let (mut c, mut size) = fixture();
    assert!(resize(&mut c, &mut size, 800, 600, Instant { nanos: 0 }).is_ok());
}

#[test]
fn an_earlier_reading_is_still_inside_the_window() {
    let (mut c, mut size) = fixture();
    resize(&mut c, &mut size, 1600, 900, later(T0, 900)).unwrap();
    let err = resize(&mut c, &mut size, 1280, 720, T0).unwrap_err();
    assert_eq!(
        err,
        ControlError::RateLimited {
            since_ms: 0,
            width: 1600,
            height: 896
        }
    );
}

#[test]
fn the_reply_names_what_applied_not_what_was_asked() {
    let (mut ctl, _size) = fixture();
    let mut ask = |line: &str| dispatch(line, &mut ctl, T0).text;
    assert_eq!(ask("resize 1601 903"), "OK resize 1600x896");
    assert!(ask("resize").starts_with("ERR resize needs"));
    assert!(ask("wibble").starts_with("ERR unknown command"));
    assert!(ask("geometry").starts_with("OK geometry 1600x896@"));
}

#[test]
fn every_command_gets_its_exact_reply() {
    let (mut ctl, mut size) = fixture();
    let mut ask = |line: &str, now: Instant| {
        let reply = dispatch(line, &mut ctl, now);
        size.take(reply.caps);
        (reply.text, caps_geometry(&size))
    };
    assert_eq!(
        ask("geometry now", T0),
        ("OK geometry 1920x1080@60".to_string(), (1920, 1080))
    );
    assert_eq!(
        ask("\tresize  +800\u{2003}0600 and more ", T0),
        ("OK resize 800x600".to_string(), (800, 600))
    );
    assert_eq!(
        ask("resize 1024 768", later(T0, 250)),
        (
            "ERR resize rate-limited: 250ms since the last applied resize, minimum 500ms \
             (current geometry 800x600 is unchanged)"
                .to_string(),
            (800, 600)
        )
    );
    assert_eq!(
        ask("resize 1024 768", later(T0, 500)),
        ("OK resize 1024x768".to_string(), (1024, 768))
    );
    for bad in [
        "resize 800",
        "resize 800 -600",
        "resize x 600",
        "resize 4294967296 600",
        "resize 800x600",
    ] {
        assert_eq!(
            ask(bad, later(T0, 9000)).0,
            "ERR resize needs <width> <height> as positive integers"
        );
    }
    assert_eq!(
        ask("wib\"ble\u{7} x", T0).0,
        "ERR unknown command \"wib\\\"ble\\u{7}\""
    );
    assert_eq!(ask("Resize 1 1", T0).0, "ERR unknown command \"Resize\"");
    assert_eq!(ask(" \t", T0).0, "ERR empty command");
    assert_eq!(
        ask("resize 4294967295 1", later(T0, 9000)),
        ("OK resize 3840x480".to_string(), (3840, 480))
    );
}

#[test]
fn a_word_is_quoted_in_the_reply() {
    assert_eq!(unknown_reply("\"x\""), "ERR unknown command \"x\"");
}

#[test]
fn a_reply_is_one_line() {
    let (mut ctl, _size) = fixture();
    for line in ["a\u{0}b", "résumé", "resize\n1", "\n", "geometry\n", "\u{7f}\u{202e}"] {
        assert!(!dispatch(line, &mut ctl, T0).text.contains('\n'));
        assert!(!dispatch_poisoned(line, "cause").contains('\n'));
    }
}

#[test]
fn what_a_reply_names_can_be_asked_for_again() {
    let (mut ctl, _size) = fixture();
    let reply = dispatch("resize 99999 1", &mut ctl, T0).text;
    assert_eq!(reply, "OK resize 3840x480");
    let again = dispatch("resize 3840 480", &mut ctl, later(T0, 1));
    assert_eq!(again.text, reply);
    assert_eq!(again.caps, None);
}

#[test]
fn the_space_around_a_command_does_not_matter() {
    let wanted = Command::Resize {
        width: 0,
        height: 7,
    };
    assert_eq!(parse_command("resize 0 7"), wanted);
    assert_eq!(parse_command("\u{2003}resize\t0  7 \r\n"), wanted);
}

#[test]
fn a_poisoned_control_is_named_where_it_is_needed() {
    let cause = "poisoned lock: another task failed inside";
    assert_eq!(
        dispatch_poisoned("geometry", cause),
        "ERR control lock poisoned: poisoned lock: another task failed inside"
    );
    assert_eq!(
        dispatch_poisoned("resize 800 600", "x"),
        "ERR control lock poisoned: x"
    );
    assert_eq!(
        dispatch_poisoned("resize 800", cause),
        "ERR resize needs <width> <height> as positive integers"
    );
    assert_eq!(dispatch_poisoned("", cause), "ERR empty command");
    assert_eq!(dispatch_poisoned("a", cause), "ERR unknown command \"a\"");
}

#[test]
fn a_stale_socket_is_removed_before_binding() {
    assert_eq!(
        bind("/tmp/c.sock", true),
        vec![
            BindStep::RemoveStale {
                words: "removing the stale control socket /tmp/c.sock".to_string()
            },
            BindStep::Bind {
                words: "binding the control socket /tmp/c.sock".to_string()
            },
        ]
    );
    assert_eq!(
        bind("/tmp/c.sock", false),
        vec![BindStep::Bind {
            words: "binding the control socket /tmp/c.sock".to_string()
        }]
    );
    assert_eq!(socket_path(None), "/tmp/cstream-control.sock");
    assert_eq!(socket_path(Some("/run/x")), "/run/x");
}
