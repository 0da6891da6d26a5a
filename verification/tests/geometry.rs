//! Geometry, and the capture graph that carries it.

use cstream::display::DisplayError;
use cstream::graph::{Caps, GraphRun, Part, Setting, Step, Value};
use cstream::pipeline::{apply_geometry, build_capture, Geometry};

#[test]
fn odd_sizes_round_to_eight() {
    let g = Geometry {
        width: 1919,
        height: 1079,
        framerate: 60,
    }
    .sanitised();
    assert_eq!(g.width % 8, 0, "width must round to 8: {}", g.width);
    assert_eq!(g.height % 8, 0, "height must round to 8: {}", g.height);
    assert_eq!((g.width, g.height), (1912, 1072));
}

#[test]
fn sizes_clamp_to_the_supported_range() {
    let small = Geometry {
        width: 1,
        height: 1,
        framerate: 60,
    }
    .sanitised();
    assert_eq!((small.width, small.height), (640, 480));

    let huge = Geometry {
        width: 99999,
        height: 99999,
        framerate: 1000,
    }
    .sanitised();
    assert_eq!((huge.width, huge.height), (3840, 2160));
    assert_eq!(huge.framerate, 240);
}

#[test]
fn the_default_is_the_spec_geometry() {
    let g = Geometry::default().sanitised();
    assert_eq!((g.width, g.height, g.framerate), (1920, 1080, 60));
}

#[test]
fn sanitising_agrees_with_clamping_and_masking() {
    for n in [
        0,
        1,
        479,
        480,
        639,
        640,
        641,
        647,
        648,
        2159,
        2160,
        2161,
        3839,
        3840,
        3841,
        u32::MAX,
    ] {
        let g = Geometry {
            width: n,
            height: n,
            framerate: n,
        }
        .sanitised();
        assert_eq!(g.width, n.clamp(640, 3840) & !7);
        assert_eq!(g.height, n.clamp(480, 2160) & !7);
        assert_eq!(g.framerate, n.clamp(1, 240));
        assert_eq!(g.sanitised(), g);
    }
}

#[test]
fn caps_carry_the_dmabuf_feature_which_forces_zero_copy() {
    let caps = Geometry::default().dmabuf_caps();
    let s = &caps.structure;
    assert_eq!(s.name, "video/x-raw");
    assert_eq!(s.get("width"), Some(&Value::I32(1920)));
    assert_eq!(s.get("height"), Some(&Value::I32(1080)));
    assert_eq!(
        s.get("framerate"),
        Some(&Value::Fraction {
            numer: 60,
            denom: 1
        })
    );
    assert!(
        caps.features.contains(&"memory:DMABuf".to_string()),
        "without the DMABuf feature the chain silently becomes a CPU copy that still works"
    );
}

#[test]
fn caps_keep_the_bits_of_a_size_that_was_not_sanitised() {
    let caps = Geometry {
        width: 0x8000_0001,
        height: u32::MAX,
        framerate: 0x7fff_ffff,
    }
    .dmabuf_caps();
    assert_eq!(
        caps.structure.get("width"),
        Some(&Value::I32(0x8000_0001u32 as i32))
    );
    assert_eq!(caps.structure.get("height"), Some(&Value::I32(-1)));
    assert_eq!(
        caps.structure.get("framerate"),
        Some(&Value::Fraction {
            numer: i32::MAX,
            denom: 1
        })
    );
}

fn factories(steps: &[Step]) -> Vec<&str> {
    steps
        .iter()
        .filter_map(|s| match s {
            Step::Make { recipe, .. } => Some(recipe.element.factory.as_str()),
            _ => None,
        })
        .collect()
}

fn size_caps(steps: &[Step]) -> &Caps {
    for s in steps {
        if let Step::Make {
            part: Part::Size,
            recipe,
        } = s
        {
            assert_eq!(recipe.element.name.as_deref(), Some("size"));
            assert_eq!(recipe.element.properties[0].name, "caps");
            if let Setting::Caps(caps) = &recipe.element.properties[0].value {
                return caps;
            }
        }
    }
    panic!("there is a size filter")
}

#[test]
fn frame_dir_adds_a_multifilesink_to_the_same_pipeline() {
    let cap = build_capture(
        "/dev/dri/renderD128",
        Geometry::default(),
        Some("/tmp/cstream-tap-test"),
    )
    .unwrap();
    assert_eq!(
        factories(&cap.plan.steps),
        vec![
            "waylanddisplaysrc",
            "capsfilter",
            "vapostproc",
            "tee",
            "queue",
            "queue",
            "videorate",
            "capsfilter",
            "videoconvert",
            "jpegenc",
            "multifilesink"
        ]
    );
    let files = cap
        .plan
        .steps
        .iter()
        .find_map(|s| match s {
            Step::Make {
                part: Part::TapFiles,
                recipe,
            } => Some(&recipe.element),
            _ => None,
        })
        .unwrap();
    assert_eq!(
        files.properties[0].value,
        Setting::Text("/tmp/cstream-tap-test/f%05d.jpg".to_string())
    );
    assert_eq!(files.properties[1].value, Setting::U32(8));
    assert!(cap.plan.steps.contains(&Step::CreateDir {
        path: "/tmp/cstream-tap-test".to_string(),
        words: "creating the frame-tap directory /tmp/cstream-tap-test".to_string(),
    }));
}

#[test]
fn without_a_frame_dir_the_converter_feeds_the_sink() {
    let cap = build_capture(
        "/dev/dri/renderD128",
        Geometry {
            width: 1601,
            height: 903,
            framerate: 0,
        },
        None,
    )
    .unwrap();
    assert_eq!(
        factories(&cap.plan.steps),
        vec!["waylanddisplaysrc", "capsfilter", "vapostproc"]
    );
    assert_eq!(
        cap.plan.steps.last(),
        Some(&Step::Link {
            parts: vec![Part::Convert, Part::Sink],
            words: "linking convert to the sink".to_string(),
        })
    );
    let caps = size_caps(&cap.plan.steps);
    assert_eq!(caps.structure.get("width"), Some(&Value::I32(1600)));
    assert_eq!(caps.structure.get("height"), Some(&Value::I32(896)));
    assert_eq!((cap.source, cap.size), (Part::Source, Part::Size));
}

#[test]
fn a_capture_needs_a_render_node() {
    match build_capture("", Geometry::default(), None) {
        Err(e) => assert_eq!(e, DisplayError::EmptyRenderNode),
        Ok(_) => panic!("an empty render node must be rejected"),
    }
}

#[test]
fn a_new_geometry_rewrites_the_size_filter() {
    let cap = build_capture("/dev/dri/renderD128", Geometry::default(), None).unwrap();
    let rewrite = apply_geometry(
        &cap,
        Geometry {
            width: 1600,
            height: 900,
            framerate: 30,
        },
    );
    assert_eq!(rewrite.target, Part::Size);
    assert_eq!(
        rewrite.geometry,
        Geometry {
            width: 1600,
            height: 896,
            framerate: 30
        }
    );
    assert_eq!(rewrite.caps, rewrite.geometry.dmabuf_caps());
}

#[test]
fn a_run_stops_at_the_first_step_that_fails() {
    let cap = build_capture("/dev/dri/renderD128", Geometry::default(), None).unwrap();
    let mut run = GraphRun::new(cap.plan);
    let mut done = 0;
    while let Some(step) = run.next() {
        let ok = !matches!(step, Step::Add { .. });
        run.on_result(ok);
        done += 1;
    }
    assert_eq!(done, 4);
    assert!(!run.is_complete());
    let failed = run.failed_step().unwrap();
    assert_eq!(failed.failure().unwrap(), "adding the capture elements");

    let cap = build_capture("/dev/dri/renderD128", Geometry::default(), None).unwrap();
    let mut run = GraphRun::new(cap.plan);
    while run.next().is_some() {
        run.on_result(true);
    }
    assert!(run.is_complete());
    assert!(run.failed_step().is_none());
}
