//! Contract tests for the things that fail silently if they regress.

use cstream::display::{
    make_source, prepare_runtime_dir, wayland_display_from_message, DirStep, Message,
};
use cstream::graph::{Setting, Structure, Value};
use cstream::input::{
    absolute_position, as_upstream_event, keyboard_key, pointer_button, pointer_motion,
};
use cstream::rank::{
    has_hardware_h264, raise_hardware_encoders, ranking_is_still_pending, Factory, Registry,
    MARGINAL, PRIMARY,
};

fn double(s: &Structure, name: &str) -> Option<f64> {
    match s.get(name) {
        Some(Value::Double(bits)) => Some(f64::from_bits(*bits)),
        _ => None,
    }
}

fn is_i32(s: &Structure, name: &str) -> bool {
    matches!(s.get(name), Some(Value::I32(_)))
}

fn registry(list: &[(&str, i32)]) -> Registry {
    Registry {
        factories: list
            .iter()
            .map(|(name, rank)| Factory {
                name: name.to_string(),
                rank: *rank,
            })
            .collect(),
    }
}

#[test]
fn pointer_motion_fields_are_f64() {
    let s = pointer_motion(12.5f64.to_bits(), 7.25f64.to_bits());
    assert_eq!(s.name, "wayland.pointer.motion");
    assert_eq!(double(&s, "pointer_x").unwrap(), 12.5);
    assert_eq!(double(&s, "pointer_y").unwrap(), 7.25);
    assert!(
        !is_i32(&s, "pointer_x"),
        "pointer_x must be f64, not an integer"
    );
}

#[test]
fn absolute_position_fields_are_f64() {
    let s = absolute_position(1.0f64.to_bits(), 2.0f64.to_bits());
    assert_eq!(s.name, "wayland.pointer.position");
    assert_eq!(double(&s, "x").unwrap(), 1.0);
    assert_eq!(double(&s, "y").unwrap(), 2.0);
    assert!(!is_i32(&s, "x"), "x must be f64");
}

#[test]
fn button_is_u32_and_pressed_is_bool() {
    let s = pointer_button(272, true);
    assert_eq!(s.name, "wayland.pointer.button");
    assert_eq!(s.get("button"), Some(&Value::U32(272)));
    assert_eq!(s.get("pressed"), Some(&Value::Bool(true)));
    assert!(
        double(&s, "button").is_none(),
        "button must be u32, not f64"
    );
    assert!(
        !matches!(s.get("pressed"), Some(Value::U32(_))),
        "pressed must be bool, not u32"
    );
}

#[test]
fn key_is_u32() {
    let s = keyboard_key(30, false);
    assert_eq!(s.name, "wayland.keyboard.key");
    assert_eq!(s.get("key"), Some(&Value::U32(30)));
    assert_eq!(s.get("pressed"), Some(&Value::Bool(false)));
    assert!(double(&s, "key").is_none(), "key must be u32");
}

#[test]
fn input_rides_as_an_upstream_event() {
    let ev = as_upstream_event(pointer_motion(1.0f64.to_bits(), 1.0f64.to_bits()));
    assert!(
        ev.is_upstream(),
        "input must travel UPSTREAM to reach the source"
    );
    assert_eq!(ev.structure.name, "wayland.pointer.motion");
}

#[test]
fn empty_render_node_is_rejected_with_a_named_reason() {
    let err = make_source("").expect_err("an empty render node must be rejected");
    let msg = err.message();
    assert!(
        msg.contains("render node"),
        "the error must name the cause: {msg}"
    );
}

#[test]
fn a_render_node_is_handed_to_the_source() {
    let recipe = make_source("/dev/dri/renderD129").unwrap();
    assert_eq!(recipe.element.factory, "waylanddisplaysrc");
    assert_eq!(recipe.element.name, None);
    assert_eq!(recipe.element.properties.len(), 1);
    assert_eq!(recipe.element.properties[0].name, "render-node");
    assert_eq!(
        recipe.element.properties[0].value,
        Setting::Text("/dev/dri/renderD129".to_string())
    );
    assert_eq!(
        recipe.words.unwrap(),
        "creating waylanddisplaysrc — is layer-gst-wayland-display installed and on GST_PLUGIN_PATH?"
    );
}

#[test]
fn wayland_display_is_read_from_the_right_message_only() {
    let wanted = Message {
        structure: Some(
            Structure::new("wayland.src")
                .with("WAYLAND_DISPLAY", Value::Text("wayland-1".to_string())),
        ),
    };
    assert_eq!(
        wayland_display_from_message(&wanted).as_deref(),
        Some("wayland-1")
    );

    let unrelated = Message {
        structure: Some(
            Structure::new("some.other.message")
                .with("WAYLAND_DISPLAY", Value::Text("wayland-9".to_string())),
        ),
    };
    assert_eq!(
        wayland_display_from_message(&unrelated),
        None,
        "only the wayland.src message may be trusted for the display name"
    );
}

#[test]
fn a_message_without_the_display_name_is_ignored() {
    assert_eq!(
        wayland_display_from_message(&Message { structure: None }),
        None
    );
    let missing = Structure::new("wayland.src").with("OTHER", Value::Text("x".to_string()));
    assert_eq!(
        wayland_display_from_message(&Message {
            structure: Some(missing)
        }),
        None
    );
    let mistyped = Structure::new("wayland.src").with("WAYLAND_DISPLAY", Value::U32(1));
    assert_eq!(
        wayland_display_from_message(&Message {
            structure: Some(mistyped)
        }),
        None
    );
}

#[test]
fn creates_a_missing_runtime_dir_but_does_not_touch_an_existing_one() {
    assert_eq!(
        prepare_runtime_dir("/tmp/cstream-rt-test", false),
        vec![
            DirStep::Create {
                words: "creating XDG_RUNTIME_DIR /tmp/cstream-rt-test for the Wayland socket"
                    .to_string()
            },
            DirStep::SetMode {
                mode: 0o700,
                words: "tightening /tmp/cstream-rt-test to 0700".to_string()
            },
        ]
    );
    assert!(
        prepare_runtime_dir("/tmp/cstream-rt-test", true).is_empty(),
        "an existing runtime dir must not be chmod'ed"
    );
}

#[test]
fn hardware_encoders_are_promoted_above_the_marginal_floor() {
    let mut host = registry(&[("x264enc", PRIMARY), ("vah264enc", 0), ("vah265enc", 0)]);
    assert!(has_hardware_h264(&host));
    assert!(
        ranking_is_still_pending(&host),
        "vah264enc must start BELOW webrtcsink's MARGINAL floor — that is why promotion is needed"
    );
    let raised = raise_hardware_encoders(&mut host);
    assert!(raised.contains(&"vah264enc".to_string()));
    assert!(
        !ranking_is_still_pending(&host),
        "after promotion the encoder must clear the floor"
    );
    let rank = host.rank("vah264enc").unwrap();
    assert!(
        rank > PRIMARY,
        "must outrank software encoders, not merely clear MARGINAL"
    );
    assert_eq!(rank, 257);
    assert_eq!(host.rank("vah265enc"), Some(257));
    assert_eq!(host.rank("x264enc"), Some(256));
    assert_eq!(
        raised,
        vec!["vah264enc".to_string(), "vah265enc".to_string()]
    );
}

#[test]
fn a_host_without_hardware_promotes_nothing() {
    let mut host = registry(&[("x264enc", PRIMARY)]);
    assert!(!has_hardware_h264(&host));
    assert!(raise_hardware_encoders(&mut host).is_empty());
    assert!(ranking_is_still_pending(&host));
    assert_eq!(host, registry(&[("x264enc", PRIMARY)]));
}

#[test]
fn the_floor_itself_counts_as_cleared() {
    assert!(!ranking_is_still_pending(&registry(&[(
        "vah265enc",
        MARGINAL
    )])));
    assert!(ranking_is_still_pending(&registry(&[(
        "vah265enc",
        MARGINAL - 1
    )])));
}
