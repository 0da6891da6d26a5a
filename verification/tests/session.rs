//! One run of the streamer.

use cstream::init;
use cstream::rank::{Factory, PromotedRegistry, Registry};
use cstream::session::{
    env_or, pipeline_error_text, plan_launch, startup_line, wants_probe, BusError, Line, PipelineState, Session,
    SessionError, Settings, Stage, StageEvent,
};
use cstream::webrtc::{EncodePolicy, Encoder};

fn host(list: &[&str]) -> PromotedRegistry {
    init(Ok(Registry {
        factories: list
            .iter()
            .map(|name| Factory {
                name: name.to_string(),
                rank: 0,
            })
            .collect(),
    }))
    .unwrap()
}

fn unset() -> Settings {
    Settings {
        encode: None,
        render_node: None,
        runtime_dir: None,
        frame_dir: None,
        audio: None,
        signalling_port: None,
        control_socket: None,
        probe: false,
    }
}

fn error(message: &str) -> SessionError {
    SessionError {
        message: message.to_string(),
        causes: vec!["the cause".to_string()],
    }
}

fn printed(text: &str) -> Vec<Line> {
    vec![Line::Printed(text.to_string())]
}

/// A run that has come as far as playing.
fn settling(settings: Settings) -> Session {
    let mut run = Session::new(plan_launch(settings, &host(&["vah264enc"])).unwrap());
    for _ in 0..4 {
        run.on_event(StageEvent::Done);
    }
    assert_eq!(run.stage, Stage::Play);
    run.on_event(StageEvent::Done);
    assert_eq!(run.stage, Stage::Settle);
    run
}

#[test]
fn initialisation_promotes_or_hands_on_the_cause() {
    let host = host(&["vah265enc", "vah264enc"]);
    assert_eq!(host.registry().rank("vah264enc"), Some(257));
    assert_eq!(
        host.raised(),
        &vec!["vah264enc".to_string(), "vah265enc".to_string()]
    );
    assert_eq!(
        init(Err("no plugins".to_string())).unwrap_err(),
        "no plugins"
    );
}

#[test]
fn settings_have_their_defaults() {
    let launch = plan_launch(unset(), &host(&[])).unwrap();
    assert_eq!(launch.policy, EncodePolicy::Auto);
    assert_eq!(launch.encoder, Encoder::Software);
    assert_eq!(launch.render_node, "/dev/dri/renderD128");
    assert_eq!(launch.runtime_dir, "/tmp/cstream-rt");
    assert_eq!(launch.frame_dir, None);
    assert_eq!(launch.audio.unwrap().target, "cstream-speaker");
    assert_eq!(launch.port, 8443);
    assert_eq!(launch.control_socket, "/tmp/cstream-control.sock");
    assert!(!launch.probe);
    assert_eq!(env_or(&Some("".to_string()), "x"), "");
    assert_eq!(env_or(&None, "x"), "x");
}

#[test]
fn settings_are_taken_over() {
    let launch = plan_launch(
        Settings {
            encode: Some(" va ".to_string()),
            render_node: Some("/dev/dri/renderD130".to_string()),
            runtime_dir: Some("/run/user/7".to_string()),
            frame_dir: Some("/frames".to_string()),
            audio: Some("off".to_string()),
            signalling_port: Some("9443".to_string()),
            control_socket: Some("/c".to_string()),
            probe: true,
        },
        &host(&["vah265enc"]),
    )
    .unwrap();
    assert_eq!(launch.encoder, Encoder::Hardware("vah265enc".to_string()));
    assert_eq!(launch.render_node, "/dev/dri/renderD130");
    assert_eq!(launch.runtime_dir, "/run/user/7");
    assert_eq!(launch.frame_dir.as_deref(), Some("/frames"));
    assert_eq!(launch.audio, None);
    assert_eq!(launch.port, 9443);
    assert_eq!(launch.control_socket, "/c");
    assert!(launch.probe);
}

#[test]
fn a_policy_that_cannot_be_honoured_starts_nothing() {
    let mut settings = unset();
    settings.encode = Some("va".to_string());
    let err = plan_launch(settings, &host(&["x264enc"])).unwrap_err();
    assert!(err.message().contains("Refusing to fall back to software"));
    let mut settings = unset();
    settings.encode = Some("gpu".to_string());
    let err = plan_launch(settings, &host(&["vah264enc"])).unwrap_err();
    assert_eq!(
        err.message(),
        "unknown encode policy \"gpu\": expected one of auto, va, software"
    );
}

#[test]
fn the_startup_line_says_which_branch_was_taken() {
    let both = host(&["vah264enc", "vah265enc"]);
    let launch = plan_launch(unset(), &both).unwrap();
    assert_eq!(
        startup_line(&both, &launch),
        "cstream-streamer: promoted=vah264enc,vah265enc policy=Auto encoder=hardware:vah264enc"
    );
    let bare = host(&[]);
    let mut settings = unset();
    settings.encode = Some("software".to_string());
    let launch = plan_launch(settings, &bare).unwrap();
    assert_eq!(
        startup_line(&bare, &launch),
        "cstream-streamer: promoted=none policy=Software encoder=software"
    );
}

#[test]
fn a_probe_is_asked_for_by_its_argument() {
    let args = |list: &[&str]| list.iter().map(|s| s.to_string()).collect::<Vec<String>>();
    assert!(wants_probe(&args(&["cstream-streamer", "x", "--probe"])));
    assert!(!wants_probe(&args(&["cstream-streamer", "--probes"])));
}

#[test]
fn a_run_goes_from_the_runtime_dir_to_the_end_of_the_stream() {
    let mut settings = unset();
    settings.frame_dir = Some("/frames".to_string());
    let mut run = Session::new(plan_launch(settings, &host(&["vah264enc"])).unwrap());
    assert_eq!(run.stage, Stage::PrepareRuntimeDir);
    assert!(run.on_event(StageEvent::Done).is_empty());
    assert_eq!(run.stage, Stage::MakeSink);
    assert!(run.on_event(StageEvent::Done).is_empty());
    assert_eq!(run.stage, Stage::BuildCapture);
    assert!(run.on_event(StageEvent::Done).is_empty());
    assert_eq!(run.stage, Stage::AttachAudio);
    assert_eq!(
        run.on_event(StageEvent::Done),
        printed("audio: capturing cstream-speaker (capture_sink=true)")
    );
    assert_eq!(run.stage, Stage::Play);
    assert!(run.on_event(StageEvent::Done).is_empty());
    assert_eq!(run.stage, Stage::Settle);
    assert_eq!(
        run.on_event(StageEvent::Settled(PipelineState::Playing)),
        vec![
            Line::Printed("CSTREAM-PIPELINE-PLAYING encoder=hardware:vah264enc".to_string()),
            Line::Printed("CSTREAM-FRAME-TAP dir=/frames".to_string()),
        ]
    );
    assert_eq!(run.stage, Stage::ProveEncoder);
    assert_eq!(
        run.on_event(StageEvent::Done),
        printed("CSTREAM-ENCODER-OPENABLE encoder=hardware:vah264enc")
    );
    assert_eq!(run.stage, Stage::OpenControl);
    assert_eq!(
        run.on_event(StageEvent::Done),
        printed("CSTREAM-CONTROL-LISTENING socket=/tmp/cstream-control.sock")
    );
    assert_eq!(run.stage, Stage::Serve);
    assert!(run.on_event(StageEvent::OtherMessage).is_empty());
    assert_eq!(run.stage, Stage::Serve);
    run.on_event(StageEvent::EndOfStream);
    assert_eq!(run.stage, Stage::Reset(Ok(())));
    run.on_event(StageEvent::Failed(error("ignored")));
    assert_eq!(run.stage, Stage::Ended(Ok(())));
    assert!(run.on_event(StageEvent::Done).is_empty());
    assert_eq!(run.stage, Stage::Ended(Ok(())));
}

#[test]
fn without_audio_the_graph_goes_straight_to_play() {
    let mut settings = unset();
    settings.audio = Some("off".to_string());
    let mut run = Session::new(plan_launch(settings, &host(&[])).unwrap());
    run.on_event(StageEvent::Done);
    run.on_event(StageEvent::Done);
    assert_eq!(
        run.on_event(StageEvent::Done),
        printed("audio: disabled by CSTREAM_AUDIO=off")
    );
    assert_eq!(run.stage, Stage::Play);
}

#[test]
fn a_probe_ends_once_the_encoder_is_proved() {
    let mut settings = unset();
    settings.probe = true;
    let mut run = settling(settings);
    run.on_event(StageEvent::Settled(PipelineState::Playing));
    run.on_event(StageEvent::Done);
    assert_eq!(run.stage, Stage::Reset(Ok(())));
    run.on_event(StageEvent::Done);
    assert_eq!(run.stage, Stage::Ended(Ok(())));
}

#[test]
fn a_failed_stage_ends_the_run_with_its_error() {
    let start = || Session::new(plan_launch(unset(), &host(&[])).unwrap());
    let mut run = start();
    run.on_event(StageEvent::Failed(error("making it")));
    assert_eq!(run.stage, Stage::Ended(Err(error("making it"))));

    let mut run = start();
    run.on_event(StageEvent::Done);
    run.on_event(StageEvent::Failed(error("sink")));
    assert_eq!(run.stage, Stage::Ended(Err(error("sink"))));

    let within = |words: &str| SessionError {
        message: words.to_string(),
        causes: vec!["linking".to_string(), "the cause".to_string()],
    };
    let mut run = start();
    run.on_event(StageEvent::Done);
    run.on_event(StageEvent::Done);
    run.on_event(StageEvent::Failed(error("linking")));
    assert_eq!(
        run.stage,
        Stage::Ended(Err(within("building the capture-to-webrtcsink graph")))
    );

    let mut run = start();
    run.on_event(StageEvent::Done);
    run.on_event(StageEvent::Done);
    run.on_event(StageEvent::Done);
    run.on_event(StageEvent::Failed(error("linking")));
    assert_eq!(
        run.stage,
        Stage::Ended(Err(within("attaching the audio branch")))
    );

    let mut run = settling(unset());
    run.on_event(StageEvent::Settled(PipelineState::Playing));
    run.on_event(StageEvent::Failed(error("it does not open")));
    assert_eq!(run.stage, Stage::Ended(Err(error("it does not open"))));
}

#[test]
fn a_pipeline_that_does_not_play_says_why() {
    let refused = |bus: Vec<BusError>| {
        let mut run = Session::new(plan_launch(unset(), &host(&[])).unwrap());
        for _ in 0..4 {
            run.on_event(StageEvent::Done);
        }
        run.on_event(StageEvent::PlayRefused {
            error: "Element failed to change its state".to_string(),
            bus,
        });
        match run.stage {
            Stage::Reset(Err(e)) => e.message,
            _ => panic!("the pipeline goes back to NULL"),
        }
    };
    assert_eq!(
        refused(Vec::new()),
        "bringing the pipeline to PLAYING: Element failed to change its state"
    );
    assert_eq!(
        refused(vec![
            BusError {
                source: Some("/GstPipeline:p".to_string()),
                error: "busy".to_string(),
                debug: Some("line 7".to_string()),
            },
            BusError {
                source: None,
                error: "odd".to_string(),
                debug: None,
            },
        ]),
        "bringing the pipeline to PLAYING: /GstPipeline:p: busy [line 7]; : odd"
    );
}

#[test]
fn a_pipeline_that_settles_elsewhere_is_an_error() {
    for (state, name) in [
        (PipelineState::VoidPending, "VoidPending"),
        (PipelineState::Null, "Null"),
        (PipelineState::Ready, "Ready"),
        (PipelineState::Paused, "Paused"),
    ] {
        let mut run = settling(unset());
        assert!(run.on_event(StageEvent::Settled(state)).is_empty());
        match run.stage {
            Stage::Ended(Err(e)) => assert_eq!(
                e.chain(),
                format!("the pipeline settled at {name}, not PLAYING")
            ),
            _ => panic!("the run is over"),
        }
    }
    let mut run = settling(unset());
    run.on_event(StageEvent::NeverSettled {
        cause: "failed".to_string(),
    });
    match run.stage {
        Stage::Ended(Err(e)) => assert_eq!(
            e.chain(),
            "the pipeline never settled into a state: failed"
        ),
        _ => panic!("the run is over"),
    }
}

#[test]
fn a_lost_control_socket_does_not_end_the_stream() {
    let mut run = settling(unset());
    run.on_event(StageEvent::Settled(PipelineState::Playing));
    run.on_event(StageEvent::Done);
    assert_eq!(
        run.on_event(StageEvent::Failed(error("binding the control socket /c"))),
        vec![Line::Logged(
            "cstream-streamer: control socket unavailable: binding the control socket /c: the cause"
                .to_string()
        )]
    );
    assert_eq!(run.stage, Stage::Serve);
    run.on_event(StageEvent::PipelineError(BusError {
        source: Some("/GstPipeline:p/\"x\"".to_string()),
        error: "stream error".to_string(),
        debug: Some("unused".to_string()),
    }));
    match &run.stage {
        Stage::Reset(Err(e)) => assert_eq!(
            e.message,
            "pipeline error from Some(\"/GstPipeline:p/\\\"x\\\"\"): stream error"
        ),
        _ => panic!("the pipeline goes back to NULL"),
    }
}

#[test]
fn an_error_without_source_is_reported_as_such() {
    let mut run = settling(unset());
    run.on_event(StageEvent::Settled(PipelineState::Playing));
    run.on_event(StageEvent::Done);
    run.on_event(StageEvent::Done);
    run.on_event(StageEvent::PipelineError(BusError {
        source: None,
        error: "lost".to_string(),
        debug: None,
    }));
    run.on_event(StageEvent::Done);
    match &run.stage {
        Stage::Ended(Err(e)) => assert_eq!(e.chain(), "pipeline error from None: lost"),
        _ => panic!("the run is over"),
    }
}

#[test]
fn a_pipeline_without_a_bus_cannot_be_served() {
    let mut run = settling(unset());
    run.on_event(StageEvent::Settled(PipelineState::Playing));
    run.on_event(StageEvent::Done);
    run.on_event(StageEvent::Done);
    assert!(run.on_event(StageEvent::NoBus).is_empty());
    match &run.stage {
        Stage::Ended(Err(e)) => assert_eq!(e.chain(), "the pipeline has no bus"),
        _ => panic!("the run is over"),
    }
}

#[test]
fn a_bus_error_names_its_source_as_it_was_quoted() {
    assert_eq!(
        pipeline_error_text(Some("\"/p\""), "lost"),
        "pipeline error from Some(\"/p\"): lost"
    );
    assert_eq!(
        pipeline_error_text(None, "lost"),
        "pipeline error from None: lost"
    );
}

#[test]
fn an_error_reads_as_one_line() {
    let e = SessionError {
        message: "a".to_string(),
        causes: vec!["b".to_string(), "c".to_string()],
    };
    assert_eq!(e.chain(), "a: b: c");
}

#[test]
fn an_event_out_of_place_changes_nothing() {
    let mut run = Session::new(plan_launch(unset(), &host(&[])).unwrap());
    assert!(run
        .on_event(StageEvent::Settled(PipelineState::Playing))
        .is_empty());
    assert!(run.on_event(StageEvent::EndOfStream).is_empty());
    assert_eq!(run.stage, Stage::PrepareRuntimeDir);
}
