//! The audio branch: what is captured, and how it is attached.

use cstream::audio::{attach, AudioConfig, MIC_NODE, SPEAKER_NODE};
use cstream::graph::{Part, Setting, Step, Structure, Value};

fn text_field(s: &Structure, name: &str) -> Option<String> {
    match s.get(name) {
        Some(Value::Text(v)) => Some(v.clone()),
        _ => None,
    }
}

#[test]
fn the_default_captures_the_speaker_monitor() {
    let c = AudioConfig::default();
    assert_eq!(c.target, SPEAKER_NODE);
    assert!(
        c.capture_sink,
        "the speaker is a SINK; without capture_sink the stream connects and stays silent"
    );
}

#[test]
fn a_clone_asks_for_the_same() {
    let c = AudioConfig::from_env(Some("a-mic")).unwrap();
    assert_eq!(c.clone(), c);
    assert_eq!(AudioConfig::default().clone(), AudioConfig::default());
}

#[test]
fn capture_sink_is_what_reaches_the_stream_properties() {
    let props = AudioConfig::default().stream_properties();
    assert_eq!(props.name, "props");
    assert_eq!(
        text_field(&props, "stream.capture.sink"),
        Some("true".to_string()),
    );
}

#[test]
fn a_source_target_does_not_ask_for_monitor_capture() {
    let c = AudioConfig {
        target: "some-real-microphone".into(),
        capture_sink: false,
    };
    assert!(
        c.stream_properties().get("stream.capture.sink").is_none(),
        "monitor capture must not be forced onto a real source"
    );
}

#[test]
fn off_disables_the_branch_entirely() {
    assert_eq!(AudioConfig::from_env(Some("off")), None);
}

#[test]
fn attach_really_builds_and_links_the_chain() {
    let plan = attach(&AudioConfig::default());
    let made: Vec<(Part, &str)> = plan
        .steps
        .iter()
        .filter_map(|s| match s {
            Step::Make { part, recipe } => Some((*part, recipe.element.factory.as_str())),
            _ => None,
        })
        .collect();
    assert_eq!(
        made,
        vec![
            (Part::AudioSource, "pipewiresrc"),
            (Part::AudioQueue, "queue"),
            (Part::AudioConvert, "audioconvert"),
            (Part::AudioResample, "audioresample"),
        ]
    );
    let src = match &plan.steps[0] {
        Step::Make { recipe, .. } => recipe,
        _ => panic!("pipewiresrc should be made first"),
    };
    assert_eq!(
        src.words.as_deref(),
        Some("creating pipewiresrc — is gst-plugin-pipewire installed?")
    );
    assert_eq!(src.element.properties[0].name, "target-object");
    assert_eq!(
        src.element.properties[0].value,
        Setting::Text(SPEAKER_NODE.to_string())
    );
    assert_eq!(src.element.properties[1].name, "stream-properties");
    match &src.element.properties[1].value {
        Setting::Structure(props) => assert_eq!(
            text_field(props, "stream.capture.sink"),
            Some("true".to_string()),
            "the element must carry stream.capture.sink, or it captures silence"
        ),
        _ => panic!("the stream properties are a structure"),
    }
    assert_eq!(
        plan.steps.last(),
        Some(&Step::Link {
            parts: vec![Part::AudioResample, Part::Sink],
            words: "linking the audio chain into the WebRTC sink".to_string(),
        })
    );
}

#[test]
fn absent_or_on_keeps_audio_with_the_default_target() {
    assert_eq!(AudioConfig::from_env(None), Some(AudioConfig::default()));
    assert_eq!(
        AudioConfig::from_env(Some("on")),
        Some(AudioConfig::default())
    );
    assert_eq!(
        AudioConfig::from_env(Some("")),
        Some(AudioConfig::default())
    );
}

#[test]
fn a_typo_keeps_audio_on_rather_than_silently_dropping_it() {
    // "of" is not "off".
    let c = AudioConfig::from_env(Some("of")).expect("a typo must not disable audio");
    assert_eq!(c.target, "of");
    assert!(!c.capture_sink);
    assert_eq!(AudioConfig::from_env(Some("off ")).unwrap().target, "off ");
}

#[test]
fn an_explicit_monitor_target_still_asks_for_sink_capture() {
    let c = AudioConfig::from_env(Some("cstream-speaker.monitor")).unwrap();
    assert!(c.capture_sink);
    assert!(
        AudioConfig::from_env(Some("other-speaker"))
            .unwrap()
            .capture_sink
    );
    assert!(
        !AudioConfig::from_env(Some("speaker"))
            .unwrap()
            .capture_sink
    );
}

#[test]
fn the_two_endpoint_names_match_pod_cstreams_config() {
    assert_eq!(SPEAKER_NODE, "cstream-speaker");
    assert_eq!(MIC_NODE, "cstream-mic");
}
