//! The outbound audio branch: the desktop's sound, into the same sink as the video.
//!
//! The graph is `pipewiresrc ! queue ! audioconvert ! audioresample ! <sink>`. It feeds raw audio,
//! as the video branch feeds raw video: the sink picks and inserts the encoder itself.
//!
//! A streamed desktop has no sound card. Applications play into a null sink, and what is captured
//! is that sink's monitor. A capture stream is routed to a sink's monitor only when it carries
//! `stream.capture.sink = true`; without it the stream connects and stays silent, which is far
//! worse than an error because every liveness check still passes.

use vstd::prelude::*;

use crate::graph::{
    first_field, lemma_sound_in_turn, lemma_sound_step, links_of, makes_at, makes_only, sound, standing_after, Element, ElementView, Part, Plan, Setting,
    SettingView, Standing, StepView, Structure, StructureView, Value, ValueView,
};
use crate::pipeline::{
    capture_standing, capture_steps, direct_chain, law_capture_graph_is_sound, made_of, tap_chain,
    tapped_chain, Geometry,
};
use crate::text::{ends_with, opt_str, same_text};

verus! {

/// The sink whose monitor carries the desktop's output.
pub const SPEAKER_NODE: &'static str = "cstream-speaker";

/// The virtual source that the browser's microphone is injected into.
///
/// Not captured here: it is the inbound direction. It is named here so that both endpoint names
/// live in one place.
pub const MIC_NODE: &'static str = "cstream-mic";

/// How the audio branch is attached.
#[derive(Debug, PartialEq, Eq)]
pub struct AudioConfig {
    /// The node to capture. The name of a sink means: capture its monitor.
    pub target: String,
    /// Whether `target` is a sink whose monitor is wanted, rather than a source.
    pub capture_sink: bool,
}

pub struct AudioConfigView {
    pub target: Seq<char>,
    pub capture_sink: bool,
}

impl View for AudioConfig {
    type V = AudioConfigView;

    open spec fn view(&self) -> AudioConfigView {
        AudioConfigView { target: self.target@, capture_sink: self.capture_sink }
    }
}

impl AudioConfigView {
    /// Capture of the speaker's monitor.
    pub open spec fn speaker() -> AudioConfigView {
        AudioConfigView { target: SPEAKER_NODE@, capture_sink: true }
    }

    /// An explicitly named target, taken at face value: it is a sink when its name says so.
    pub open spec fn named(target: Seq<char>) -> AudioConfigView {
        AudioConfigView {
            target,
            capture_sink: "-speaker"@.is_suffix_of(target) || ".monitor"@.is_suffix_of(target),
        }
    }
}

/// How the audio setting reads: only the exact word `off` disables the branch; nothing, `on` and
/// the empty text mean the speaker; anything else names the target.
pub open spec fn audio_setting(raw: Option<Seq<char>>) -> Option<AudioConfigView> {
    match raw {
        None => Some(AudioConfigView::speaker()),
        Some(word) => if word == "off"@ {
            None
        } else if word.len() == 0 || word == "on"@ {
            Some(AudioConfigView::speaker())
        } else {
            Some(AudioConfigView::named(word))
        },
    }
}

impl Clone for AudioConfig {
    fn clone(&self) -> (r: AudioConfig)
        ensures
            r@ == self@,
    {
        AudioConfig { target: self.target.clone(), capture_sink: self.capture_sink }
    }
}

impl Default for AudioConfig {
    fn default() -> (r: AudioConfig)
        ensures
            r@ == AudioConfigView::speaker(),
    {
        AudioConfig { target: SPEAKER_NODE.to_owned(), capture_sink: true }
    }
}

/// The properties of the capture stream.
pub open spec fn stream_settings(capture_sink: bool) -> StructureView {
    StructureView {
        name: "props"@,
        fields: if capture_sink {
            seq![("stream.capture.sink"@, ValueView::Text("true"@))]
        } else {
            Seq::empty()
        },
    }
}

impl AudioConfig {
    /// Reads the audio setting, `raw`; `None` where it is unset.
    ///
    /// Any value but `off` keeps audio on: audio that is silently absent is not something that a
    /// typo should be able to cause.
    pub fn from_env(raw: Option<&str>) -> (r: Option<AudioConfig>)
        ensures
            (match r {
                Some(config) => Some(config@),
                None => None,
            }) == audio_setting(opt_str(raw)),
    {
        let word = match raw {
            None => {
                return Some(AudioConfig::default());
            },
            Some(word) => word,
        };
        if same_text(word, "off") {
            None
        } else if word.is_empty() || same_text(word, "on") {
            proof {
                reveal_strlit("off");
            }
            Some(AudioConfig::default())
        } else {
            Some(
                AudioConfig {
                    target: word.to_owned(),
                    capture_sink: ends_with(word, "-speaker") || ends_with(word, ".monitor"),
                },
            )
        }
    }

    /// The properties of the capture stream that this configuration implies.
    pub fn stream_properties(&self) -> (r: Structure)
        ensures
            r@ == stream_settings(self.capture_sink),
    {
        let props = Structure::new("props");
        if self.capture_sink {
            props.with("stream.capture.sink", Value::Text("true".to_owned()))
        } else {
            props
        }
    }
}

/// The steps that attach the audio branch to the sink.
pub open spec fn attach_steps(config: AudioConfigView) -> Seq<StepView> {
    seq![
        StepView::Make {
            part: Part::AudioSource,
            recipe: ElementView::plain("pipewiresrc"@).with(
                "target-object"@,
                SettingView::Text(config.target),
            ).with(
                "stream-properties"@,
                SettingView::Structure(stream_settings(config.capture_sink)),
            ).or_say("creating pipewiresrc — is gst-plugin-pipewire installed?"@),
        },
        StepView::Make {
            part: Part::AudioQueue,
            recipe: ElementView::plain("queue"@).named("audio-queue"@).or_say(
                "creating the audio queue"@,
            ),
        },
        StepView::Make {
            part: Part::AudioConvert,
            recipe: ElementView::plain("audioconvert"@).or_say("creating audioconvert"@),
        },
        StepView::Make {
            part: Part::AudioResample,
            recipe: ElementView::plain("audioresample"@).or_say("creating audioresample"@),
        },
        StepView::Add { parts: audio_chain(), words: "adding the audio elements"@ },
        StepView::Link { parts: audio_chain(), words: "linking the audio chain"@ },
        StepView::Link {
            parts: seq![Part::AudioResample, Part::Sink],
            words: "linking the audio chain into the WebRTC sink"@,
        },
    ]
}

/// The elements of the audio branch, in order.
pub open spec fn audio_chain() -> Seq<Part> {
    seq![Part::AudioSource, Part::AudioQueue, Part::AudioConvert, Part::AudioResample]
}

/// Plans the audio branch, from the capture to the sink of the video.
///
/// The queue keeps a stall of one branch from stalling the other. The branch is linked into the
/// sink last.
pub fn attach(config: &AudioConfig) -> (r: Plan)
    ensures
        r@ == attach_steps(config@),
{
    let mut plan = Plan::new();
    let source = Element::plain("pipewiresrc").with(
        "target-object",
        Setting::Text(config.target.clone()),
    ).with("stream-properties", Setting::Structure(config.stream_properties()));
    plan.make(
        Part::AudioSource,
        source.or_say("creating pipewiresrc — is gst-plugin-pipewire installed?"),
    );
    plan.make(
        Part::AudioQueue,
        Element::plain("queue").named("audio-queue").or_say("creating the audio queue"),
    );
    plan.make(
        Part::AudioConvert,
        Element::plain("audioconvert").or_say("creating audioconvert"),
    );
    plan.make(
        Part::AudioResample,
        Element::plain("audioresample").or_say("creating audioresample"),
    );
    plan.add(
        vec![Part::AudioSource, Part::AudioQueue, Part::AudioConvert, Part::AudioResample],
        "adding the audio elements",
    );
    plan.link(
        vec![Part::AudioSource, Part::AudioQueue, Part::AudioConvert, Part::AudioResample],
        "linking the audio chain",
    );
    plan.link(
        vec![Part::AudioResample, Part::Sink],
        "linking the audio chain into the WebRTC sink",
    );
    assert(plan@ =~~= attach_steps(config@));
    plan
}

/// Only the exact word disables audio: whatever else the setting holds, there is a branch, and it
/// captures the target that was named, or else the speaker.
pub proof fn law_only_off_disables_audio(raw: Option<Seq<char>>)
    ensures
        audio_setting(raw) is None <==> raw == Some("off"@),
        audio_setting(raw) matches Some(config) ==> config.target == SPEAKER_NODE@ || raw == Some(
            config.target,
        ),
{
    reveal_strlit("off");
}

/// A monitor is asked for exactly where a sink is captured, and the speaker is one: naming it
/// explicitly reads as the default does.
pub proof fn law_a_speaker_is_captured_through_its_monitor()
    ensures
        stream_settings(true).get("stream.capture.sink"@) == Some(ValueView::Text("true"@)),
        stream_settings(false).get("stream.capture.sink"@) is None,
        audio_setting(Some(SPEAKER_NODE@)) == Some(AudioConfigView::speaker()),
{
    reveal_with_fuel(first_field, 2);
    reveal_strlit("cstream-speaker");
    reveal_strlit("-speaker");
    reveal_strlit("off");
    reveal_strlit("on");
    assert("-speaker"@ =~= SPEAKER_NODE@.subrange(7, 15));
    assert(SPEAKER_NODE@.len() == 15);
}

/// The audio branch can be attached to any graph that has the sink in its pipeline and no audio
/// yet. It adds one chain into the sink and leaves the links that were there.
pub proof fn law_audio_attaches_to_the_video_graph(before: Standing, config: AudioConfigView)
    requires
        before.added.contains(Part::Sink),
        forall|i: int|
            0 <= i < audio_chain().len() ==> !before.made.contains(#[trigger] audio_chain()[i])
                && !before.added.contains(audio_chain()[i]),
    ensures
        sound(before, attach_steps(config)),
        standing_after(before, attach_steps(config)).links == before.links + links_of(
            audio_chain().push(Part::Sink),
        ),
        standing_after(before, attach_steps(config)).added == before.added + audio_chain().to_set(),
{
    let s = attach_steps(config);
    let chain = audio_chain();
    assert(chain[0] == Part::AudioSource && chain[1] == Part::AudioQueue && chain[2]
        == Part::AudioConvert && chain[3] == Part::AudioResample);
    assert(s.take(0) =~= Seq::empty());
    lemma_sound_step(before, s, 0);
    lemma_sound_step(before, s, 1);
    lemma_sound_step(before, s, 2);
    lemma_sound_step(before, s, 3);
    lemma_sound_step(before, s, 4);
    assert(chain.contains(chain[0]) && chain.contains(chain[1]) && chain.contains(chain[2])
        && chain.contains(chain[3]));
    lemma_sound_step(before, s, 5);
    lemma_sound_step(before, s, 6);
    assert(s.take(7) =~= s);
    reveal_with_fuel(links_of, 6);
    let end = standing_after(before, s);
    assert(end.links =~= before.links + links_of(chain.push(Part::Sink)));
    assert(end.added =~= before.added + chain.to_set());
}

/// The audio branch can be attached once the capture graph was put together, with a tap or without:
/// the whole is put together step by step, and all that it adds to the links of the video is the
/// chain of the audio into the same sink.
pub proof fn law_audio_follows_the_capture(
    render_node: Seq<char>,
    geom: Geometry,
    frame_dir: Option<Seq<char>>,
    config: AudioConfigView,
)
    ensures
        sound(
            Standing::sink_only(),
            capture_steps(render_node, geom, frame_dir) + attach_steps(config),
        ),
        standing_after(
            Standing::sink_only(),
            capture_steps(render_node, geom, frame_dir) + attach_steps(config),
        ).links == capture_standing(render_node, geom, frame_dir).links + links_of(
            audio_chain().push(Part::Sink),
        ),
{
    let start = Standing::sink_only();
    let video = capture_steps(render_node, geom, frame_dir);
    let before = capture_standing(render_node, geom, frame_dir);
    law_capture_graph_is_sound(render_node, geom, frame_dir);
    let main = if frame_dir is None {
        direct_chain()
    } else {
        tapped_chain()
    };
    assert(main.last() == Part::Sink);
    assert(main.contains(Part::Sink));
    assert forall|i: int| 0 <= i < audio_chain().len() implies !before.added.contains(
        #[trigger] audio_chain()[i],
    ) by {
        let part = audio_chain()[i];
        assert(!main.contains(part));
        assert(!tap_chain().contains(part));
    }
    law_audio_attaches_to_the_video_graph(before, config);
    lemma_sound_in_turn(start, video, attach_steps(config));
}

/// The branch captures what it was told to: the one source is made on the configured target, and
/// asks for a sink's monitor exactly where the configuration says so; then follow a queue, a
/// converter and a resampler.
pub proof fn law_audio_captures_the_configured_node(config: AudioConfigView)
    ensures
        makes_only(
            attach_steps(config),
            Part::AudioSource,
            made_of(
                "pipewiresrc"@,
                None,
                seq![
                    ("target-object"@, SettingView::Text(config.target)),
                    (
                        "stream-properties"@,
                        SettingView::Structure(stream_settings(config.capture_sink)),
                    ),
                ],
                Some("creating pipewiresrc — is gst-plugin-pipewire installed?"@),
            ),
        ),
        makes_only(
            attach_steps(config),
            Part::AudioQueue,
            made_of("queue"@, Some("audio-queue"@), Seq::empty(), Some("creating the audio queue"@)),
        ),
        makes_only(
            attach_steps(config),
            Part::AudioConvert,
            made_of("audioconvert"@, None, Seq::empty(), Some("creating audioconvert"@)),
        ),
        makes_only(
            attach_steps(config),
            Part::AudioResample,
            made_of("audioresample"@, None, Seq::empty(), Some("creating audioresample"@)),
        ),
        stream_settings(true).name == "props"@ && stream_settings(false).name == "props"@,
        stream_settings(true).fields == seq![("stream.capture.sink"@, ValueView::Text("true"@))],
        stream_settings(false).fields.len() == 0,
{
    let steps = attach_steps(config);
    let source = made_of(
        "pipewiresrc"@,
        None,
        seq![
            ("target-object"@, SettingView::Text(config.target)),
            (
                "stream-properties"@,
                SettingView::Structure(stream_settings(config.capture_sink)),
            ),
        ],
        Some("creating pipewiresrc — is gst-plugin-pipewire installed?"@),
    );
    let queue = made_of(
        "queue"@,
        Some("audio-queue"@),
        Seq::empty(),
        Some("creating the audio queue"@),
    );
    let convert = made_of("audioconvert"@, None, Seq::empty(), Some("creating audioconvert"@));
    let resample = made_of("audioresample"@, None, Seq::empty(), Some("creating audioresample"@));
    assert(steps[0] =~~= StepView::Make { part: Part::AudioSource, recipe: source });
    assert(steps[1] =~~= StepView::Make { part: Part::AudioQueue, recipe: queue });
    assert(steps[2] =~~= StepView::Make { part: Part::AudioConvert, recipe: convert });
    assert(steps[3] =~~= StepView::Make { part: Part::AudioResample, recipe: resample });
    assert(makes_at(steps, 0, Part::AudioSource, source));
    assert(makes_at(steps, 1, Part::AudioQueue, queue));
    assert(makes_at(steps, 2, Part::AudioConvert, convert));
    assert(makes_at(steps, 3, Part::AudioResample, resample));
}

/// Branches for two configurations differ: the target and the kind of capture can be told from the
/// plan.
pub proof fn law_an_audio_plan_tells_its_configuration(one: AudioConfigView, other: AudioConfigView)
    requires
        attach_steps(one) == attach_steps(other),
    ensures
        one.target == other.target,
        one.capture_sink == other.capture_sink,
{
    let a = attach_steps(one)[0]->recipe.element.properties;
    let b = attach_steps(other)[0]->recipe.element.properties;
    assert(a[0].1 == SettingView::Text(one.target) && b[0].1 == SettingView::Text(other.target));
    assert(a[1].1 == SettingView::Structure(stream_settings(one.capture_sink)));
    assert(b[1].1 == SettingView::Structure(stream_settings(other.capture_sink)));
    assert(stream_settings(one.capture_sink).fields.len() == stream_settings(
        other.capture_sink,
    ).fields.len());
}

/// The steps that make nothing: all four elements are added, linked in order, and linked into the
/// sink last.
pub proof fn law_audio_is_linked_into_the_sink_last(config: AudioConfigView)
    ensures
        attach_steps(config).len() == 7,
        attach_steps(config)[4] == (StepView::Add {
            parts: seq![
                Part::AudioSource,
                Part::AudioQueue,
                Part::AudioConvert,
                Part::AudioResample,
            ],
            words: "adding the audio elements"@,
        }),
        attach_steps(config)[5] == (StepView::Link {
            parts: seq![
                Part::AudioSource,
                Part::AudioQueue,
                Part::AudioConvert,
                Part::AudioResample,
            ],
            words: "linking the audio chain"@,
        }),
        attach_steps(config)[6] == (StepView::Link {
            parts: seq![Part::AudioResample, Part::Sink],
            words: "linking the audio chain into the WebRTC sink"@,
        }),
{
}

/// How the setting reads: a target is captured as it was named, through its monitor exactly where
/// its name ends as a sink's does; unset, empty and `on` mean the monitor of the speaker.
pub proof fn law_a_named_target_is_captured_as_it_was_named(word: Seq<char>)
    ensures
        word != "off"@ && word != "on"@ && word.len() > 0 ==> {
            &&& audio_setting(Some(word)) is Some
            &&& audio_setting(Some(word))->0.target == word
            &&& audio_setting(Some(word))->0.capture_sink <==> "-speaker"@.is_suffix_of(word)
                || ".monitor"@.is_suffix_of(word)
        },
        audio_setting(Some("off"@)) is None,
        word.len() == 0 || word == "on"@ ==> audio_setting(Some(word)) == Some(
            AudioConfigView { target: "cstream-speaker"@, capture_sink: true },
        ),
        audio_setting(None) == Some(
            AudioConfigView { target: "cstream-speaker"@, capture_sink: true },
        ),
{
    reveal_strlit("off");
    reveal_strlit("on");
}

/// A configuration stands for its target and its kind of capture.
pub proof fn law_a_configuration_stands_for_itself(config: AudioConfig)
    ensures
        config@.target == config.target@,
        config@.capture_sink == config.capture_sink,
{
}

}
