//! Which encoder carries the stream.

use cstream::graph::{Setting, Structure};
use cstream::rank::{Factory, Registry};
use cstream::webrtc::{
    make_sink, registry_has, resolve_encoder, select_encoder, signalling_port,
    tune_encoder, unknown_policy_text, verify_openable, EncodePolicy, Encoder, OpenCall, WebrtcError,
};

fn none(_: &str) -> bool {
    false
}
fn all(_: &str) -> bool {
    true
}

#[test]
fn va_without_hardware_fails_rather_than_degrading() {
    let err = select_encoder(EncodePolicy::Va, &none)
        .unwrap_err()
        .message();
    assert!(
        err.contains("Refusing to fall back to software"),
        "the error must name the refusal, got: {err}"
    );
    assert!(
        err.contains("vah264enc"),
        "the error must name what it looked for: {err}"
    );
    assert_eq!(
        err,
        "encode: va was requested but no VA-API encoder is available on this render node \
         (looked for vah264enc, vah265enc). Refusing to fall back to software: a CPU stream at this density \
         is a capacity failure, not a degraded mode."
    );
}

#[test]
fn auto_without_hardware_uses_software() {
    assert_eq!(
        select_encoder(EncodePolicy::Auto, &none).unwrap(),
        Encoder::Software
    );
}

#[test]
fn auto_with_hardware_prefers_it_and_names_it() {
    let got = select_encoder(EncodePolicy::Auto, &all).unwrap();
    assert_eq!(got, Encoder::Hardware("vah264enc".into()));
    assert_eq!(got.label(), "hardware:vah264enc");
}

#[test]
fn software_is_honoured_even_where_hardware_exists() {
    assert_eq!(
        select_encoder(EncodePolicy::Software, &all).unwrap(),
        Encoder::Software
    );
    assert_eq!(Encoder::Software.label(), "software");
}

#[test]
fn the_second_encoder_is_taken_where_the_first_is_missing() {
    let only_265 = |name: &str| name == "vah265enc";
    assert_eq!(
        select_encoder(EncodePolicy::Va, &only_265).unwrap(),
        Encoder::Hardware("vah265enc".into())
    );
    assert_eq!(
        resolve_encoder(EncodePolicy::Va, None),
        Err(WebrtcError::NoHardware)
    );
    assert_eq!(
        resolve_encoder(EncodePolicy::Auto, Some("x")),
        Ok(Encoder::Hardware("x".into()))
    );
}

#[test]
fn an_unknown_policy_is_an_error_not_a_default() {
    assert!(EncodePolicy::parse("hardware").is_err());
    assert!(EncodePolicy::parse("").is_err());
    assert_eq!(EncodePolicy::parse(" va ").unwrap(), EncodePolicy::Va);
    assert_eq!(EncodePolicy::parse("auto\n").unwrap(), EncodePolicy::Auto);
    assert_eq!(
        EncodePolicy::parse("software").unwrap(),
        EncodePolicy::Software
    );
    assert_eq!(
        EncodePolicy::parse(" V\"A\t").unwrap_err().message(),
        "unknown encode policy \"V\\\"A\": expected one of auto, va, software"
    );
}

#[test]
fn the_words_for_an_unknown_policy_hold_what_was_quoted() {
    assert_eq!(
        unknown_policy_text("\"gpu\""),
        "unknown encode policy \"gpu\": expected one of auto, va, software"
    );
}

#[test]
fn the_registry_answers_by_name() {
    let registry = Registry {
        factories: vec![Factory {
            name: "vah264enc".to_string(),
            rank: 0,
        }],
    };
    assert!(registry_has(&registry, "vah264enc"));
    assert!(!registry_has(&registry, "vah264"));
}

#[test]
fn the_signalling_port_falls_back_to_its_default() {
    assert_eq!(signalling_port(None), 8443);
    assert_eq!(signalling_port(Some("9000")), 9000);
    assert_eq!(signalling_port(Some("1")), 1);
    assert_eq!(signalling_port(Some("65535")), 65535);
    for bad in ["0", "65536", " 9000", "", "99999999999999999999", "x"] {
        assert_eq!(signalling_port(Some(bad)), 8443);
    }
}

#[test]
fn the_sink_is_pinned_to_h264_and_runs_its_own_signalling_server() {
    let sink = make_sink(&Encoder::Software, 9001).recipe;
    assert_eq!(sink.element.factory, "webrtcsink");
    let props = &sink.element.properties;
    assert_eq!(props.len(), 3);
    assert_eq!(props[0].name, "video-caps");
    match &props[0].value {
        Setting::Caps(caps) => {
            assert_eq!(caps.structure, Structure::new("video/x-h264"));
            assert!(caps.features.is_empty());
        }
        _ => panic!("video-caps are caps"),
    }
    assert_eq!(props[1].name, "run-signalling-server");
    assert_eq!(props[1].value, Setting::Bool(true));
    assert_eq!(props[2].name, "signalling-server-port");
    assert_eq!(props[2].value, Setting::U32(9001));
    assert_eq!(
        sink.words.unwrap(),
        "creating webrtcsink — is gst-plugin-rswebrtc installed?"
    );
}

fn names(list: &[&str]) -> Vec<String> {
    list.iter().map(|s| s.to_string()).collect()
}

#[test]
fn an_encoder_is_tuned_by_what_it_has() {
    let software = tune_encoder(
        &names(&["bitrate", "tune", "key-int-max", "bframes"]),
        &Encoder::Software,
    );
    let got: Vec<(&str, &Setting)> = software
        .iter()
        .map(|p| (p.name.as_str(), &p.value))
        .collect();
    assert_eq!(
        got,
        vec![
            ("tune", &Setting::Parsed("zerolatency".to_string())),
            ("key-int-max", &Setting::U32(60)),
            ("bframes", &Setting::U32(0)),
        ]
    );
    let hardware = tune_encoder(
        &names(&["rate-control", "tune"]),
        &Encoder::Hardware("vah264enc".into()),
    );
    assert_eq!(hardware.len(), 1);
    assert_eq!(hardware[0].name, "rate-control");
    assert_eq!(hardware[0].value, Setting::Parsed("cbr".to_string()));
}

#[test]
fn an_encoder_always_counts_as_configured() {
    let sink = make_sink(&Encoder::Software, 8443);
    let with = sink.encoder_setup(Some(&names(&["tune", "bframes"])));
    assert!(with.configured);
    assert_eq!(with.settings.len(), 2);
    assert_eq!(with.settings[0].name, "tune");
    let hardware = make_sink(&Encoder::Hardware("vah264enc".into()), 8443);
    let with = hardware.encoder_setup(Some(&names(&["tune", "bframes"])));
    assert_eq!(with.settings.len(), 1);
    let without = sink.encoder_setup(None);
    assert!(without.configured);
    assert!(without.settings.is_empty());
}

#[test]
fn software_needs_no_proof() {
    let check = verify_openable(&Encoder::Software);
    assert_eq!(check.next_call(), None);
    assert_eq!(check.outcome(), Some(Ok(())));
}

#[test]
fn hardware_is_opened_and_closed_again_whatever_happens() {
    let encoder = Encoder::Hardware("vah264enc".into());
    let mut check = verify_openable(&encoder);
    assert_eq!(
        check.next_call(),
        Some(OpenCall::Make("vah264enc".to_string()))
    );
    check.on_return(None);
    assert_eq!(check.next_call(), Some(OpenCall::Ready));
    check.on_return(None);
    assert_eq!(check.next_call(), Some(OpenCall::Null));
    check.on_return(Some("ignored".to_string()));
    assert_eq!(check.next_call(), None);
    assert_eq!(check.outcome(), Some(Ok(())));

    let mut check = verify_openable(&encoder);
    check.on_return(None);
    check.on_return(Some("Element failed to change its state".to_string()));
    assert_eq!(check.next_call(), Some(OpenCall::Null));
    check.on_return(None);
    let err = check.outcome().unwrap().unwrap_err();
    assert_eq!(
        err.message(),
        "vah264enc is registered but will not open on this render node -- the plugin loads \
         even where the hardware is unusable, so a registry lookup alone proves nothing"
    );
    assert_eq!(err.cause().unwrap(), "Element failed to change its state");
}

#[test]
fn hardware_that_cannot_be_made_is_named() {
    let mut check = verify_openable(&Encoder::Hardware("vah265enc".into()));
    check.on_return(Some("no such element factory".to_string()));
    assert_eq!(check.next_call(), None);
    let err = check.outcome().unwrap().unwrap_err();
    assert_eq!(err.message(), "creating vah265enc");
    assert_eq!(err.cause().unwrap(), "no such element factory");
    assert_eq!(WebrtcError::NoHardware.cause(), None);
}
