//! One run of the streamer, from its settings to the end of the stream.
//!
//! A run is a sequence of stages. Each is carried out by whoever holds the media framework and the
//! operating system, who then reports what it gave; this module says what comes next, what is
//! printed, and with which error a run ends.
//!
//! The markers on standard output are what a test bed asserts. They are printed only once what they
//! say is true: the pipeline plays, the encoder opens, the control socket listens.

use vstd::prelude::*;

use crate::audio::{audio_setting, AudioConfig, AudioConfigView};
use crate::control::socket_path;
use crate::rank::{available, find, PromotedRegistry, HARDWARE_ENCODERS};
use crate::text::{
    debug_quoted, join, joined, opt_str, opt_text, quoted, same_text, texts, trimmed,
};
use crate::webrtc::{
    hardware_name, policy_of, port_setting, probed, registry_has, resolved, resolves,
    select_encoder, signalling_port, EncodePolicy, Encoder, EncoderView, WebrtcError,
    WebrtcErrorView,
};

verus! {

/// The settings of a run; `None` where one is unset.
#[derive(Debug)]
pub struct Settings {
    pub encode: Option<String>,
    pub render_node: Option<String>,
    pub runtime_dir: Option<String>,
    pub frame_dir: Option<String>,
    pub audio: Option<String>,
    pub signalling_port: Option<String>,
    pub control_socket: Option<String>,
    /// Whether the run only probes the graph, and ends once it has played.
    pub probe: bool,
}

/// The setting, or else the default.
pub open spec fn setting_or(value: Option<String>, default: Seq<char>) -> Seq<char> {
    match value {
        Some(s) => s@,
        None => default,
    }
}

/// The setting, or else the default.
pub fn env_or(value: &Option<String>, default: &str) -> (r: String)
    ensures
        r@ == setting_or(*value, default@),
{
    match value {
        Some(s) => s.clone(),
        None => default.to_owned(),
    }
}

/// Whether the arguments ask for a probe.
pub fn wants_probe(args: &Vec<String>) -> (r: bool)
    ensures
        r == texts(args@).contains("--probe"@),
{
    let mut i: usize = 0;
    while i < args.len()
        invariant
            i <= args.len(),
            forall|j: int| 0 <= j < i ==> #[trigger] texts(args@)[j] != "--probe"@,
        decreases args.len() - i,
    {
        if same_text(args[i].as_str(), "--probe") {
            assert(texts(args@)[i as int] == "--probe"@);
            return true;
        }
        i = i + 1;
    }
    false
}

/// What a run does, once its settings are resolved against the host.
#[derive(Debug)]
pub struct Launch {
    pub policy: EncodePolicy,
    pub encoder: Encoder,
    pub render_node: String,
    pub runtime_dir: String,
    pub frame_dir: Option<String>,
    pub audio: Option<AudioConfig>,
    pub port: u32,
    pub control_socket: String,
    pub probe: bool,
}

pub struct LaunchView {
    pub policy: EncodePolicy,
    pub encoder: EncoderView,
    pub render_node: Seq<char>,
    pub runtime_dir: Seq<char>,
    pub frame_dir: Option<Seq<char>>,
    pub audio: Option<AudioConfigView>,
    pub port: u32,
    pub control_socket: Seq<char>,
    pub probe: bool,
}

impl View for Launch {
    type V = LaunchView;

    open spec fn view(&self) -> LaunchView {
        LaunchView {
            policy: self.policy,
            encoder: self.encoder@,
            render_node: self.render_node@,
            runtime_dir: self.runtime_dir@,
            frame_dir: opt_text(self.frame_dir),
            audio: match self.audio {
                Some(config) => Some(config@),
                None => None,
            },
            port: self.port,
            control_socket: self.control_socket@,
            probe: self.probe,
        }
    }
}

/// The first hardware encoder that is registered.
pub open spec fn first_available(factories: Seq<(Seq<char>, i32)>) -> Option<Seq<char>> {
    if find(factories, HARDWARE_ENCODERS@[0]@) is Some {
        Some(HARDWARE_ENCODERS@[0]@)
    } else if find(factories, HARDWARE_ENCODERS@[1]@) is Some {
        Some(HARDWARE_ENCODERS@[1]@)
    } else {
        None
    }
}

/// The word of the encoding policy.
pub open spec fn encode_word(settings: Settings) -> Seq<char> {
    trimmed(setting_or(settings.encode, "auto"@))
}

/// The launch that the settings stand for, with an encoder resolved for their policy.
pub open spec fn launch_of(
    settings: Settings,
    policy: EncodePolicy,
    encoder: EncoderView,
) -> LaunchView {
    LaunchView {
        policy,
        encoder,
        render_node: setting_or(settings.render_node, "/dev/dri/renderD128"@),
        runtime_dir: setting_or(settings.runtime_dir, "/tmp/cstream-rt"@),
        frame_dir: opt_text(settings.frame_dir),
        audio: audio_setting(opt_text(settings.audio)),
        port: port_setting(opt_text(settings.signalling_port)) as u32,
        control_socket: setting_or(settings.control_socket, "/tmp/cstream-control.sock"@),
        probe: settings.probe,
    }
}

fn as_slice(value: &Option<String>) -> (r: Option<&str>)
    ensures
        opt_str(r) == opt_text(*value),
{
    match value {
        Some(s) => Some(s.as_str()),
        None => None,
    }
}

/// Resolves the settings against the host.
///
/// An unknown policy and a policy that the host cannot honour are errors: nothing starts then.
pub fn plan_launch(settings: Settings, host: &PromotedRegistry) -> (r: Result<Launch, WebrtcError>)
    ensures
        match policy_of(encode_word(settings)) {
            None => r matches Err(e) && e@ == (WebrtcErrorView::UnknownPolicy {
                word: encode_word(settings),
            }),
            Some(policy) => match resolved(policy, first_available(host.factories())) {
                None => r matches Err(e) && e@ == WebrtcErrorView::NoHardware,
                Some(encoder) => r matches Ok(launch) && launch@ == launch_of(
                    settings,
                    policy,
                    encoder,
                ),
            },
        },
{
    let policy = match EncodePolicy::parse(env_or(&settings.encode, "auto").as_str()) {
        Ok(policy) => policy,
        Err(e) => {
            return Err(e);
        },
    };
    let registry = host.registry();
    let present = |name: &str| -> (b: bool)
        ensures
            b == (find(registry@, name@) is Some),
        { registry_has(registry, name) };
    let selected = select_encoder(policy, &present);
    proof {
        let found = choose|found: Option<int>| #[trigger]
            probed(present, found) && resolves(policy, hardware_name(found), selected);
        if let Some(k) = found {
            assert(k == 0 || k == 1);
            assert(k == 1 ==> call_ensures(present, (HARDWARE_ENCODERS@[0],), false));
        } else {
            assert(call_ensures(present, (HARDWARE_ENCODERS@[0],), false));
            assert(call_ensures(present, (HARDWARE_ENCODERS@[1],), false));
        }
        assert(hardware_name(found) == first_available(registry@));
    }
    let encoder = match selected {
        Ok(encoder) => encoder,
        Err(e) => {
            return Err(e);
        },
    };
    let render_node = env_or(&settings.render_node, "/dev/dri/renderD128");
    let runtime_dir = env_or(&settings.runtime_dir, "/tmp/cstream-rt");
    let audio = AudioConfig::from_env(as_slice(&settings.audio));
    let port = signalling_port(as_slice(&settings.signalling_port));
    let control_socket = socket_path(as_slice(&settings.control_socket));
    Ok(
        Launch {
            policy,
            encoder,
            render_node,
            runtime_dir,
            frame_dir: settings.frame_dir,
            audio,
            port,
            control_socket,
            probe: settings.probe,
        },
    )
}

/// The name of a policy.
pub open spec fn policy_name(policy: EncodePolicy) -> Seq<char> {
    match policy {
        EncodePolicy::Auto => "Auto"@,
        EncodePolicy::Va => "Va"@,
        EncodePolicy::Software => "Software"@,
    }
}

/// The line that says which encoders were promoted, and what the policy resolved to.
pub open spec fn startup_text(raised: Seq<Seq<char>>, launch: LaunchView) -> Seq<char> {
    "cstream-streamer: promoted="@ + (if raised.len() == 0 {
        "none"@
    } else {
        joined(raised, ","@)
    }) + " policy="@ + policy_name(launch.policy) + " encoder="@ + launch.encoder.label()
}

/// The line that says which encoders were promoted, and what the policy resolved to.
pub fn startup_line(host: &PromotedRegistry, launch: &Launch) -> (r: String)
    ensures
        r@ == startup_text(available(host.factories(), HARDWARE_ENCODERS@.len()), launch@),
{
    let raised = host.raised();
    let mut r = "cstream-streamer: promoted=".to_owned();
    if raised.len() == 0 {
        r.append("none");
    } else {
        r.append(join(raised, ",").as_str());
    }
    r.append(" policy=");
    r.append(
        match launch.policy {
            EncodePolicy::Auto => "Auto",
            EncodePolicy::Va => "Va",
            EncodePolicy::Software => "Software",
        },
    );
    r.append(" encoder=");
    r.append(launch.encoder.label().as_str());
    r
}

/// An error that ends a run: what it is, and what it was caused by, the nearest cause first.
#[derive(Debug, PartialEq, Eq)]
pub struct SessionError {
    pub message: String,
    pub causes: Vec<String>,
}

pub struct SessionErrorView {
    pub message: Seq<char>,
    pub causes: Seq<Seq<char>>,
}

impl View for SessionError {
    type V = SessionErrorView;

    open spec fn view(&self) -> SessionErrorView {
        SessionErrorView { message: self.message@, causes: texts(self.causes@) }
    }
}

impl SessionErrorView {
    pub open spec fn plain(message: Seq<char>) -> SessionErrorView {
        SessionErrorView { message, causes: Seq::empty() }
    }

    /// The message, and behind it the causes.
    pub open spec fn links(self) -> Seq<Seq<char>> {
        seq![self.message] + self.causes
    }

    /// The error in one line, its last cause at the end.
    pub open spec fn chain(self) -> Seq<char> {
        joined(self.links(), ": "@)
    }

    /// This error as the cause of another.
    pub open spec fn within(self, words: Seq<char>) -> SessionErrorView {
        SessionErrorView { message: words, causes: self.links() }
    }
}

impl SessionError {
    /// The message, and behind it the causes.
    fn links(&self) -> (r: Vec<String>)
        ensures
            texts(r@) == self@.links(),
    {
        let mut r: Vec<String> = vec![self.message.clone()];
        let mut i: usize = 0;
        while i < self.causes.len()
            invariant
                i <= self.causes.len(),
                r.len() == i + 1,
                r@[0]@ == self.message@,
                forall|j: int| 0 <= j < i ==> (#[trigger] r@[j + 1])@ == self.causes@[j]@,
            decreases self.causes.len() - i,
        {
            r.push(self.causes[i].clone());
            i = i + 1;
        }
        assert forall|k: int| 0 <= k < texts(r@).len() implies #[trigger] texts(r@)[k]
            == self@.links()[k] by {
            if k > 0 {
                assert(r@[(k - 1) + 1]@ == self.causes@[k - 1]@);
            }
        }
        assert(texts(r@) =~= self@.links());
        r
    }

    /// The error in one line, its last cause at the end.
    pub fn chain(&self) -> (r: String)
        ensures
            r@ == self@.chain(),
    {
        join(&self.links(), ": ")
    }

    fn plain(message: String) -> (r: SessionError)
        ensures
            r@ == SessionErrorView::plain(message@),
    {
        let r = SessionError { message, causes: Vec::new() };
        assert(r@.causes =~= Seq::empty());
        r
    }

    fn within(&self, words: &str) -> (r: SessionError)
        ensures
            r@ == self@.within(words@),
    {
        SessionError { message: words.to_owned(), causes: self.links() }
    }
}

/// The state that a pipeline is in.
#[derive(Debug, Clone, Copy, PartialEq, Eq, Structural)]
pub enum PipelineState {
    VoidPending,
    Null,
    Ready,
    Paused,
    Playing,
}

impl PipelineState {
    pub open spec fn label(self) -> Seq<char> {
        match self {
            PipelineState::VoidPending => "VoidPending"@,
            PipelineState::Null => "Null"@,
            PipelineState::Ready => "Ready"@,
            PipelineState::Paused => "Paused"@,
            PipelineState::Playing => "Playing"@,
        }
    }

    fn name(self) -> (r: &'static str)
        ensures
            r@ == self.label(),
    {
        match self {
            PipelineState::VoidPending => "VoidPending",
            PipelineState::Null => "Null",
            PipelineState::Ready => "Ready",
            PipelineState::Paused => "Paused",
            PipelineState::Playing => "Playing",
        }
    }
}

/// An error message from a pipeline's bus.
#[derive(Debug, PartialEq, Eq)]
pub struct BusError {
    /// The path of the element that it came from.
    pub source: Option<String>,
    pub error: String,
    pub debug: Option<String>,
}

impl BusError {
    /// The message with its source before it and its details behind.
    pub open spec fn detail(self) -> Seq<char> {
        (match self.source {
            Some(path) => path@,
            None => Seq::empty(),
        }) + ": "@ + self.error@ + (match self.debug {
            Some(text) => " ["@ + text@ + "]"@,
            None => Seq::empty(),
        })
    }

    /// The error that ends a run in which this message came up.
    pub open spec fn fatal(self) -> Seq<char> {
        pipeline_error(
            match self.source {
                Some(path) => Some(quoted(path@)),
                None => None,
            },
            self.error@,
        )
    }

    fn detail_text(&self) -> (r: String)
        ensures
            r@ == self.detail(),
    {
        let mut r = match &self.source {
            Some(path) => path.clone(),
            None => String::new(),
        };
        r.append(": ");
        r.append(self.error.as_str());
        match &self.debug {
            Some(text) => {
                let mut details = " [".to_owned();
                details.append(text.as_str());
                details.append("]");
                r.append(details.as_str());
            },
            None => {
                assert(r@ + Seq::<char>::empty() =~= r@);
            },
        }
        r
    }

    fn fatal_text(&self) -> (r: String)
        ensures
            r@ == self.fatal(),
    {
        match &self.source {
            Some(path) => pipeline_error_text(
                Some(debug_quoted(path.as_str()).as_str()),
                self.error.as_str(),
            ),
            None => pipeline_error_text(None, self.error.as_str()),
        }
    }
}

/// The words for an error on the bus, given the quoted path of the element that it came from.
pub open spec fn pipeline_error(quoted_source: Option<Seq<char>>, error: Seq<char>) -> Seq<char> {
    "pipeline error from "@ + (match quoted_source {
        Some(path) => "Some("@ + path + ")"@,
        None => "None"@,
    }) + ": "@ + error
}

/// The words for an error on the bus, given the quoted path of the element that it came from.
pub fn pipeline_error_text(quoted_source: Option<&str>, error: &str) -> (r: String)
    ensures
        r@ == pipeline_error(opt_str(quoted_source), error@),
{
    let source = match quoted_source {
        Some(path) => {
            let mut some = "Some(".to_owned();
            some.append(path);
            some.append(")");
            some
        },
        None => "None".to_owned(),
    };
    let mut r = "pipeline error from ".to_owned();
    r.append(source.as_str());
    r.append(": ");
    r.append(error);
    r
}

/// What the bus said when the pipeline could not be brought to play.
pub open spec fn bus_details(bus: Seq<BusError>) -> Seq<Seq<char>> {
    bus.map_values(|e: BusError| e.detail())
}

/// Why the pipeline does not play. The bus has the reason; without one, the bare error has to do.
pub open spec fn play_failure(error: Seq<char>, bus: Seq<BusError>) -> Seq<char> {
    let detail = joined(bus_details(bus), "; "@);
    "bringing the pipeline to PLAYING: "@ + if detail.len() == 0 {
        error
    } else {
        detail
    }
}

fn play_failure_text(error: &str, bus: &Vec<BusError>) -> (r: String)
    ensures
        r@ == play_failure(error@, bus@),
{
    let mut details: Vec<String> = Vec::new();
    let mut i: usize = 0;
    while i < bus.len()
        invariant
            i <= bus.len(),
            details.len() == i,
            forall|j: int| 0 <= j < i ==> (#[trigger] details@[j])@ == bus@[j].detail(),
        decreases bus.len() - i,
    {
        details.push(bus[i].detail_text());
        i = i + 1;
    }
    assert(texts(details@) =~= bus_details(bus@));
    let detail = join(&details, "; ");
    let mut r = "bringing the pipeline to PLAYING: ".to_owned();
    if detail.as_str().is_empty() {
        r.append(error);
    } else {
        r.append(detail.as_str());
    }
    r
}

/// A stage of a run.
#[derive(Debug, PartialEq, Eq)]
pub enum Stage {
    /// Prepare the runtime directory and announce it to the process.
    PrepareRuntimeDir,
    /// Make the sink.
    MakeSink,
    /// Put the capture graph together, ending at the sink.
    BuildCapture,
    /// Attach the audio branch to the sink.
    AttachAudio,
    /// Ask the pipeline to play.
    Play,
    /// Wait, with a bound, for the state that it settles in.
    Settle,
    /// Prove that the encoder opens.
    ProveEncoder,
    /// Open the control socket.
    OpenControl,
    /// Take the next message from the bus.
    Serve,
    /// Bring the pipeline to NULL, to end with this outcome.
    Reset(Result<(), SessionError>),
    /// The run is over, with this outcome.
    Ended(Result<(), SessionError>),
}

pub enum StageView {
    PrepareRuntimeDir,
    MakeSink,
    BuildCapture,
    AttachAudio,
    Play,
    Settle,
    ProveEncoder,
    OpenControl,
    Serve,
    /// `None` for success.
    Reset(Option<SessionErrorView>),
    Ended(Option<SessionErrorView>),
}

/// The error of an outcome.
pub open spec fn error_of(outcome: Result<(), SessionError>) -> Option<SessionErrorView> {
    match outcome {
        Ok(_) => None,
        Err(e) => Some(e@),
    }
}

impl View for Stage {
    type V = StageView;

    open spec fn view(&self) -> StageView {
        match self {
            Stage::PrepareRuntimeDir => StageView::PrepareRuntimeDir,
            Stage::MakeSink => StageView::MakeSink,
            Stage::BuildCapture => StageView::BuildCapture,
            Stage::AttachAudio => StageView::AttachAudio,
            Stage::Play => StageView::Play,
            Stage::Settle => StageView::Settle,
            Stage::ProveEncoder => StageView::ProveEncoder,
            Stage::OpenControl => StageView::OpenControl,
            Stage::Serve => StageView::Serve,
            Stage::Reset(outcome) => StageView::Reset(error_of(*outcome)),
            Stage::Ended(outcome) => StageView::Ended(error_of(*outcome)),
        }
    }
}

/// What a stage gave.
#[derive(Debug)]
pub enum StageEvent {
    /// It was carried out.
    Done,
    /// It failed.
    Failed(SessionError),
    /// The pipeline refused to play: the bare error, and the errors on its bus.
    PlayRefused { error: String, bus: Vec<BusError> },
    /// The pipeline settled in this state.
    Settled(PipelineState),
    /// The pipeline's change of state failed.
    NeverSettled { cause: String },
    /// The pipeline has no bus to take messages from.
    NoBus,
    /// The stream ended.
    EndOfStream,
    /// The bus reported an error.
    PipelineError(BusError),
    /// The bus reported something else.
    OtherMessage,
}

/// A line of output.
#[derive(Debug, PartialEq, Eq)]
pub enum Line {
    /// To standard output.
    Printed(String),
    /// To standard error.
    Logged(String),
}

pub enum LineView {
    Printed(Seq<char>),
    Logged(Seq<char>),
}

impl View for Line {
    type V = LineView;

    open spec fn view(&self) -> LineView {
        match self {
            Line::Printed(s) => LineView::Printed(s@),
            Line::Logged(s) => LineView::Logged(s@),
        }
    }
}

/// The marker of a pipeline that plays.
pub open spec fn playing_marker(launch: LaunchView) -> Seq<char> {
    "CSTREAM-PIPELINE-PLAYING encoder="@ + launch.encoder.label()
}

/// The marker of an encoder that opens.
pub open spec fn openable_marker(launch: LaunchView) -> Seq<char> {
    "CSTREAM-ENCODER-OPENABLE encoder="@ + launch.encoder.label()
}

/// The marker of a control socket that listens.
pub open spec fn listening_marker(launch: LaunchView) -> Seq<char> {
    "CSTREAM-CONTROL-LISTENING socket="@ + launch.control_socket
}

/// The line that names the captured audio.
pub open spec fn audio_text(config: AudioConfigView) -> Seq<char> {
    "audio: capturing "@ + config.target + " (capture_sink="@ + (if config.capture_sink {
        "true"@
    } else {
        "false"@
    }) + ")"@
}

/// The stage that follows `stage` on `event`. An event that does not belong to the stage changes
/// nothing.
pub open spec fn stage_after(launch: LaunchView, stage: StageView, event: StageEvent) -> StageView {
    match stage {
        StageView::PrepareRuntimeDir => match event {
            StageEvent::Done => StageView::MakeSink,
            StageEvent::Failed(e) => StageView::Ended(Some(e@)),
            _ => stage,
        },
        StageView::MakeSink => match event {
            StageEvent::Done => StageView::BuildCapture,
            StageEvent::Failed(e) => StageView::Ended(Some(e@)),
            _ => stage,
        },
        StageView::BuildCapture => match event {
            StageEvent::Done => if launch.audio is Some {
                StageView::AttachAudio
            } else {
                StageView::Play
            },
            StageEvent::Failed(e) => StageView::Ended(
                Some(e@.within("building the capture-to-webrtcsink graph"@)),
            ),
            _ => stage,
        },
        StageView::AttachAudio => match event {
            StageEvent::Done => StageView::Play,
            StageEvent::Failed(e) => StageView::Ended(
                Some(e@.within("attaching the audio branch"@)),
            ),
            _ => stage,
        },
        StageView::Play => match event {
            StageEvent::Done => StageView::Settle,
            StageEvent::PlayRefused { error, bus } => StageView::Reset(
                Some(SessionErrorView::plain(play_failure(error@, bus@))),
            ),
            _ => stage,
        },
        StageView::Settle => match event {
            StageEvent::Settled(state) => if state == PipelineState::Playing {
                StageView::ProveEncoder
            } else {
                StageView::Ended(
                    Some(
                        SessionErrorView::plain(
                            "the pipeline settled at "@ + state.label() + ", not PLAYING"@,
                        ),
                    ),
                )
            },
            StageEvent::NeverSettled { cause } => StageView::Ended(
                Some(
                    SessionErrorView {
                        message: "the pipeline never settled into a state"@,
                        causes: seq![cause@],
                    },
                ),
            ),
            _ => stage,
        },
        StageView::ProveEncoder => match event {
            StageEvent::Done => if launch.probe {
                StageView::Reset(None)
            } else {
                StageView::OpenControl
            },
            StageEvent::Failed(e) => StageView::Ended(Some(e@)),
            _ => stage,
        },
        StageView::OpenControl => match event {
            StageEvent::Done => StageView::Serve,
            StageEvent::Failed(_) => StageView::Serve,
            _ => stage,
        },
        StageView::Serve => match event {
            StageEvent::NoBus => StageView::Ended(
                Some(SessionErrorView::plain("the pipeline has no bus"@)),
            ),
            StageEvent::EndOfStream => StageView::Reset(None),
            StageEvent::PipelineError(e) => StageView::Reset(
                Some(SessionErrorView::plain(e.fatal())),
            ),
            _ => stage,
        },
        StageView::Reset(outcome) => match event {
            StageEvent::Done => StageView::Ended(outcome),
            StageEvent::Failed(_) => StageView::Ended(outcome),
            _ => stage,
        },
        StageView::Ended(_) => stage,
    }
}

/// What is printed when `event` comes in at `stage`.
pub open spec fn lines_on(launch: LaunchView, stage: StageView, event: StageEvent) -> Seq<
    LineView,
> {
    match (stage, event) {
        (StageView::BuildCapture, StageEvent::Done) => if launch.audio is None {
            seq![LineView::Printed("audio: disabled by CSTREAM_AUDIO=off"@)]
        } else {
            Seq::empty()
        },
        (StageView::AttachAudio, StageEvent::Done) => match launch.audio {
            Some(config) => seq![LineView::Printed(audio_text(config))],
            None => Seq::empty(),
        },
        (StageView::Settle, StageEvent::Settled(state)) => if state == PipelineState::Playing {
            match launch.frame_dir {
                Some(dir) => seq![
                    LineView::Printed(playing_marker(launch)),
                    LineView::Printed("CSTREAM-FRAME-TAP dir="@ + dir),
                ],
                None => seq![LineView::Printed(playing_marker(launch))],
            }
        } else {
            Seq::empty()
        },
        (StageView::ProveEncoder, StageEvent::Done) => seq![
            LineView::Printed(openable_marker(launch)),
        ],
        (StageView::OpenControl, StageEvent::Done) => seq![LineView::Printed(listening_marker(launch))],
        (StageView::OpenControl, StageEvent::Failed(e)) => seq![
            LineView::Logged("cstream-streamer: control socket unavailable: "@ + e@.chain()),
        ],
        _ => Seq::empty(),
    }
}

/// The texts of a list of lines.
pub open spec fn lines_of(list: Seq<Line>) -> Seq<LineView> {
    list.map_values(|l: Line| l@)
}

/// A run of the streamer.
#[derive(Debug)]
pub struct Session {
    pub launch: Launch,
    pub stage: Stage,
}

impl Session {
    /// A run at its start.
    pub fn new(launch: Launch) -> (r: Session)
        ensures
            r.launch == launch,
            r.stage@ == StageView::PrepareRuntimeDir,
    {
        Session { launch, stage: Stage::PrepareRuntimeDir }
    }

    /// Takes what the current stage gave, and returns what is to be printed.
    pub fn on_event(&mut self, event: StageEvent) -> (r: Vec<Line>)
        ensures
            final(self).launch == old(self).launch,
            final(self).stage@ == stage_after(old(self).launch@, old(self).stage@, event),
            lines_of(r@) == lines_on(old(self).launch@, old(self).stage@, event),
    {
        let mut lines: Vec<Line> = Vec::new();
        let mut stage = Stage::Serve;
        std::mem::swap(&mut stage, &mut self.stage);
        let ghost was = stage@;
        let next = match (stage, event) {
            (Stage::PrepareRuntimeDir, StageEvent::Done) => Stage::MakeSink,
            (Stage::PrepareRuntimeDir, StageEvent::Failed(e)) => Stage::Ended(Err(e)),
            (Stage::MakeSink, StageEvent::Done) => Stage::BuildCapture,
            (Stage::MakeSink, StageEvent::Failed(e)) => Stage::Ended(Err(e)),
            (Stage::BuildCapture, StageEvent::Done) => {
                if self.launch.audio.is_some() {
                    Stage::AttachAudio
                } else {
                    lines.push(Line::Printed("audio: disabled by CSTREAM_AUDIO=off".to_owned()));
                    Stage::Play
                }
            },
            (Stage::BuildCapture, StageEvent::Failed(e)) => Stage::Ended(
                Err(e.within("building the capture-to-webrtcsink graph")),
            ),
            (Stage::AttachAudio, StageEvent::Done) => {
                if let Some(config) = &self.launch.audio {
                    lines.push(Line::Printed(audio_line(config)));
                }
                Stage::Play
            },
            (Stage::AttachAudio, StageEvent::Failed(e)) => Stage::Ended(
                Err(e.within("attaching the audio branch")),
            ),
            (Stage::Play, StageEvent::Done) => Stage::Settle,
            (Stage::Play, StageEvent::PlayRefused { error, bus }) => Stage::Reset(
                Err(SessionError::plain(play_failure_text(error.as_str(), &bus))),
            ),
            (Stage::Settle, StageEvent::Settled(state)) => {
                if state == PipelineState::Playing {
                    lines.push(
                        marker(
                            "CSTREAM-PIPELINE-PLAYING encoder=",
                            self.launch.encoder.label().as_str(),
                        ),
                    );
                    if let Some(dir) = &self.launch.frame_dir {
                        lines.push(marker("CSTREAM-FRAME-TAP dir=", dir.as_str()));
                    }
                    Stage::ProveEncoder
                } else {
                    let mut message = "the pipeline settled at ".to_owned();
                    message.append(state.name());
                    message.append(", not PLAYING");
                    Stage::Ended(Err(SessionError::plain(message)))
                }
            },
            (Stage::Settle, StageEvent::NeverSettled { cause }) => {
                let causes = vec![cause];
                assert(texts(causes@) =~= seq![cause@]);
                Stage::Ended(
                    Err(
                        SessionError {
                            message: "the pipeline never settled into a state".to_owned(),
                            causes,
                        },
                    ),
                )
            },
            (Stage::ProveEncoder, StageEvent::Done) => {
                lines.push(
                    marker(
                        "CSTREAM-ENCODER-OPENABLE encoder=",
                        self.launch.encoder.label().as_str(),
                    ),
                );
                if self.launch.probe {
                    Stage::Reset(Ok(()))
                } else {
                    Stage::OpenControl
                }
            },
            (Stage::ProveEncoder, StageEvent::Failed(e)) => Stage::Ended(Err(e)),
            (Stage::OpenControl, StageEvent::Done) => {
                lines.push(
                    marker(
                        "CSTREAM-CONTROL-LISTENING socket=",
                        self.launch.control_socket.as_str(),
                    ),
                );
                Stage::Serve
            },
            (Stage::OpenControl, StageEvent::Failed(e)) => {
                let mut text = "cstream-streamer: control socket unavailable: ".to_owned();
                text.append(e.chain().as_str());
                lines.push(Line::Logged(text));
                Stage::Serve
            },
            (Stage::Serve, StageEvent::NoBus) => Stage::Ended(
                Err(SessionError::plain("the pipeline has no bus".to_owned())),
            ),
            (Stage::Serve, StageEvent::EndOfStream) => Stage::Reset(Ok(())),
            (Stage::Serve, StageEvent::PipelineError(e)) => Stage::Reset(
                Err(SessionError::plain(e.fatal_text())),
            ),
            (Stage::Reset(outcome), StageEvent::Done) => Stage::Ended(outcome),
            (Stage::Reset(outcome), StageEvent::Failed(_)) => Stage::Ended(outcome),
            (other, _) => other,
        };
        self.stage = next;
        assert(lines_of(lines@) =~= lines_on(self.launch@, was, event));
        lines
    }
}

fn marker(name: &str, value: &str) -> (r: Line)
    ensures
        r@ == LineView::Printed(name@ + value@),
{
    let mut text = name.to_owned();
    text.append(value);
    Line::Printed(text)
}

fn audio_line(config: &AudioConfig) -> (r: String)
    ensures
        r@ == audio_text(config@),
{
    let mut r = "audio: capturing ".to_owned();
    r.append(config.target.as_str());
    r.append(" (capture_sink=");
    if config.capture_sink {
        r.append("true");
    } else {
        r.append("false");
    }
    r.append(")");
    r
}

/// The stage of a run after these events.
pub open spec fn stage_at(launch: LaunchView, events: Seq<StageEvent>) -> StageView
    decreases events.len(),
{
    if events.len() == 0 {
        StageView::PrepareRuntimeDir
    } else {
        stage_after(launch, stage_at(launch, events.drop_last()), events.last())
    }
}

/// Event `i` is the one by which the pipeline was seen to play.
pub open spec fn played_at(launch: LaunchView, events: Seq<StageEvent>, i: int) -> bool {
    &&& 0 <= i < events.len()
    &&& stage_at(launch, events.take(i)) is Settle
    &&& events[i] == StageEvent::Settled(PipelineState::Playing)
}

/// Event `i` is the one by which the encoder was proved to open.
pub open spec fn proved_at(launch: LaunchView, events: Seq<StageEvent>, i: int) -> bool {
    &&& 0 <= i < events.len()
    &&& stage_at(launch, events.take(i)) is ProveEncoder
    &&& events[i] is Done
}

/// The stages that come only once the encoder was proved.
pub open spec fn past_the_proof(stage: StageView) -> bool {
    ||| stage is OpenControl
    ||| stage is Serve
    ||| stage == StageView::Reset(None)
    ||| stage == StageView::Ended(None)
}

proof fn lemma_earlier(
    launch: LaunchView,
    events: Seq<StageEvent>,
    i: int,
)
    requires
        events.len() > 0,
        0 <= i < events.len() - 1,
    ensures
        played_at(launch, events.drop_last(), i) ==> played_at(launch, events, i),
        proved_at(launch, events.drop_last(), i) ==> proved_at(launch, events, i),
{
    assert(events.drop_last().take(i) == events.take(i));
}

proof fn lemma_played(launch: LaunchView, events: Seq<StageEvent>) -> (i: int)
    requires
        stage_at(launch, events) is ProveEncoder || past_the_proof(stage_at(launch, events)),
    ensures
        played_at(launch, events, i),
    decreases events.len(),
{
    let before = events.drop_last();
    let last = events.len() - 1;
    assert(events.take(last) == before);
    if stage_at(launch, before) is ProveEncoder || past_the_proof(stage_at(launch, before)) {
        let i = lemma_played(launch, before);
        lemma_earlier(launch, events, i);
        i
    } else {
        last
    }
}

proof fn lemma_proved(launch: LaunchView, events: Seq<StageEvent>) -> (i: int)
    requires
        past_the_proof(stage_at(launch, events)),
    ensures
        proved_at(launch, events, i),
    decreases events.len(),
{
    let before = events.drop_last();
    let last = events.len() - 1;
    assert(events.take(last) == before);
    if past_the_proof(stage_at(launch, before)) {
        let i = lemma_proved(launch, before);
        lemma_earlier(launch, events, i);
        i
    } else {
        last
    }
}

/// The control socket is opened, the stream served and a run ended with success only after the
/// pipeline was seen to play and, after that, the encoder proved to open.
pub proof fn law_nothing_is_served_before_it_plays(launch: LaunchView, events: Seq<StageEvent>)
    requires
        past_the_proof(stage_at(launch, events)),
    ensures
        exists|i: int, j: int|
            #![trigger played_at(launch, events, i), proved_at(launch, events, j)]
            i < j && played_at(launch, events, i) && proved_at(launch, events, j),
{
    let j = lemma_proved(launch, events);
    let i = lemma_played(launch, events.take(j));
    assert(events.take(j).take(i) == events.take(i));
    assert(events.take(j)[i] == events[i]);
    assert(played_at(launch, events, i));
}

/// A probe builds and plays the very same graph, but never opens the control socket or serves: no
/// socket is left behind for the next run.
pub proof fn law_a_probe_never_serves(launch: LaunchView, events: Seq<StageEvent>)
    requires
        launch.probe,
    ensures
        !(stage_at(launch, events) is OpenControl),
        !(stage_at(launch, events) is Serve),
    decreases events.len(),
{
    if events.len() > 0 {
        law_a_probe_never_serves(launch, events.drop_last());
    }
}

/// With audio off, nothing is attached to the graph of the video.
pub proof fn law_without_audio_nothing_is_attached(launch: LaunchView, events: Seq<StageEvent>)
    requires
        launch.audio is None,
    ensures
        !(stage_at(launch, events) is AttachAudio),
    decreases events.len(),
{
    if events.len() > 0 {
        law_without_audio_nothing_is_attached(launch, events.drop_last());
    }
}

/// A stream that cannot be controlled is still a stream: the loss of the control socket is reported
/// and the run goes on.
pub proof fn law_a_lost_control_socket_is_not_fatal(launch: LaunchView, e: SessionError)
    ensures
        stage_after(launch, StageView::OpenControl, StageEvent::Failed(e)) is Serve,
        lines_on(launch, StageView::OpenControl, StageEvent::Failed(e)).len() == 1,
{
}

/// A run that is over stays over, and prints nothing more.
pub proof fn law_the_end_is_final(
    launch: LaunchView,
    outcome: Option<SessionErrorView>,
    event: StageEvent,
)
    ensures
        stage_after(launch, StageView::Ended(outcome), event) == StageView::Ended(outcome),
        lines_on(launch, StageView::Ended(outcome), event).len() == 0,
{
}

/// A marker is printed only when what it says has just become true: the pipeline was seen to play,
/// the encoder to open, the control socket to listen.
pub proof fn law_markers_are_true_when_printed(
    launch: LaunchView,
    stage: StageView,
    event: StageEvent,
)
    ensures
        lines_on(launch, stage, event).contains(LineView::Printed(playing_marker(launch))) <==> (
        stage is Settle && event == StageEvent::Settled(PipelineState::Playing)),
        lines_on(launch, stage, event).contains(LineView::Printed(openable_marker(launch))) <==> (
        stage is ProveEncoder && event is Done),
        lines_on(launch, stage, event).contains(LineView::Printed(listening_marker(launch))) <==> (
        stage is OpenControl && event is Done),
{
    reveal_strlit("CSTREAM-PIPELINE-PLAYING encoder=");
    reveal_strlit("CSTREAM-ENCODER-OPENABLE encoder=");
    reveal_strlit("CSTREAM-CONTROL-LISTENING socket=");
    reveal_strlit("CSTREAM-FRAME-TAP dir=");
    reveal_strlit("audio: disabled by CSTREAM_AUDIO=off");
    reveal_strlit("audio: capturing ");
    let playing = playing_marker(launch);
    let openable = openable_marker(launch);
    let listening = listening_marker(launch);
    assert(playing[8] == 'P' && openable[8] == 'E' && listening[8] == 'C');
    let lines = lines_on(launch, stage, event);
    match (stage, event) {
        (StageView::Settle, StageEvent::Settled(PipelineState::Playing)) => {
            assert(lines[0] == LineView::Printed(playing));
            if let Some(dir) = launch.frame_dir {
                assert(("CSTREAM-FRAME-TAP dir="@ + dir)[8] == 'F');
            }
        },
        (StageView::ProveEncoder, StageEvent::Done) => {
            assert(lines[0] == LineView::Printed(openable));
        },
        (StageView::OpenControl, StageEvent::Done) => {
            assert(lines[0] == LineView::Printed(listening));
        },
        (StageView::AttachAudio, StageEvent::Done) => {
            if let Some(config) = launch.audio {
                assert(audio_text(config)[0] == 'a');
            }
        },
        (StageView::BuildCapture, StageEvent::Done) => {
            assert("audio: disabled by CSTREAM_AUDIO=off"@[0] == 'a');
        },
        _ => {},
    }
}

/// A run takes each setting as it was set, and has its own default for each that is not.
pub proof fn law_a_launch_takes_its_settings(
    settings: Settings,
    policy: EncodePolicy,
    encoder: EncoderView,
)
    ensures
        ({
            let launch = launch_of(settings, policy, encoder);
            &&& launch.policy == policy
            &&& launch.encoder == encoder
            &&& settings.render_node matches Some(s) ==> launch.render_node == s@
            &&& settings.render_node is None ==> launch.render_node == "/dev/dri/renderD128"@
            &&& settings.runtime_dir matches Some(s) ==> launch.runtime_dir == s@
            &&& settings.runtime_dir is None ==> launch.runtime_dir == "/tmp/cstream-rt"@
            &&& settings.frame_dir matches Some(s) ==> launch.frame_dir == Some(s@)
            &&& settings.frame_dir is None ==> launch.frame_dir is None
            &&& settings.audio matches Some(s) ==> launch.audio == audio_setting(Some(s@))
            &&& settings.audio is None ==> launch.audio == audio_setting(None)
            &&& settings.signalling_port matches Some(s) ==> launch.port == port_setting(Some(s@))
            &&& settings.signalling_port is None ==> launch.port == port_setting(None)
            &&& settings.control_socket matches Some(s) ==> launch.control_socket == s@
            &&& settings.control_socket is None ==> launch.control_socket
                == "/tmp/cstream-control.sock"@
            &&& launch.probe == settings.probe
        }),
        settings.encode matches Some(s) ==> encode_word(settings) == trimmed(s@),
        settings.encode is None ==> encode_word(settings) == trimmed("auto"@),
{
}

/// A value that is set is taken, and else the default.
pub proof fn law_a_default_is_for_what_is_not_set(s: String, default: Seq<char>)
    ensures
        setting_or(Some(s), default) == s@,
        setting_or(None, default) == default,
{
}

/// The encoder that a run gets is the preferred one of those that are registered.
pub proof fn law_the_preferred_encoder_comes_first(factories: Seq<(Seq<char>, i32)>)
    ensures
        find(factories, "vah264enc"@) is Some ==> first_available(factories) == Some("vah264enc"@),
        find(factories, "vah264enc"@) is None && find(factories, "vah265enc"@) is Some
            ==> first_available(factories) == Some("vah265enc"@),
        find(factories, "vah264enc"@) is None && find(factories, "vah265enc"@) is None
            ==> first_available(factories) is None,
{
}

/// A launch stands for its fields.
pub proof fn law_a_launch_stands_for_its_fields(launch: Launch)
    ensures
        launch@.policy == launch.policy,
        launch@.encoder == launch.encoder@,
        launch@.render_node == launch.render_node@,
        launch@.runtime_dir == launch.runtime_dir@,
        launch.frame_dir matches Some(dir) ==> launch@.frame_dir == Some(dir@),
        launch.frame_dir is None ==> launch@.frame_dir is None,
        launch.audio matches Some(config) ==> launch@.audio == Some(config@),
        launch.audio is None ==> launch@.audio is None,
        launch@.port == launch.port,
        launch@.control_socket == launch.control_socket@,
        launch@.probe == launch.probe,
{
}

/// The line at the start says which encoders were promoted, under which policy, and which encoder
/// carries the stream.
pub proof fn law_the_startup_line_says_which_branch_was_taken(
    raised: Seq<Seq<char>>,
    launch: LaunchView,
)
    ensures
        raised.len() > 0 ==> startup_text(raised, launch) == "cstream-streamer: promoted="@ + joined(
            raised,
            ","@,
        ) + " policy="@ + policy_name(launch.policy) + " encoder="@ + launch.encoder.label(),
        raised.len() == 0 ==> startup_text(raised, launch) == "cstream-streamer: promoted="@
            + "none"@ + " policy="@ + policy_name(launch.policy) + " encoder="@
            + launch.encoder.label(),
        policy_name(EncodePolicy::Auto) == "Auto"@,
        policy_name(EncodePolicy::Va) == "Va"@,
        policy_name(EncodePolicy::Software) == "Software"@,
{
}

/// An error reads as its message and its causes in order, and becomes the nearest cause of another
/// whole.
pub proof fn law_an_error_keeps_its_causes(e: SessionErrorView, words: Seq<char>, cause: Seq<char>)
    ensures
        SessionErrorView::plain(words).message == words,
        SessionErrorView::plain(words).causes.len() == 0,
        SessionErrorView::plain(words).chain() == words,
        (SessionErrorView { message: words, causes: seq![cause] }).chain() == words + ": "@ + cause,
        e.within(words).message == words,
        e.within(words).causes == seq![e.message] + e.causes,
        e.chain() == joined(seq![e.message] + e.causes, ": "@),
{
    reveal_with_fuel(joined, 3);
    assert(SessionErrorView::plain(words).links() =~= seq![words]);
    let two = SessionErrorView { message: words, causes: seq![cause] };
    assert(two.links() =~= seq![words, cause]);
    assert(two.links().drop_last() =~= seq![words]);
}

/// How an error on the bus reads.
pub proof fn law_a_bus_error_says_where_it_came_from(e: BusError)
    ensures
        e.source is None && e.debug is None ==> e.detail() == ": "@ + e.error@,
        e.source matches Some(path) ==> (e.debug is None ==> e.detail() == path@ + ": "@ + e.error@),
        e.source matches Some(path) ==> (e.debug matches Some(text) ==> e.detail() == path@ + ": "@
            + e.error@ + (" ["@ + text@ + "]"@)),
        e.source is None ==> (e.debug matches Some(text) ==> e.detail() == ": "@ + e.error@ + (" ["@
            + text@ + "]"@)),
        e.source matches Some(path) ==> e.fatal() == "pipeline error from "@ + ("Some("@ + quoted(
            path@,
        ) + ")"@) + ": "@ + e.error@,
        e.source is None ==> e.fatal() == "pipeline error from "@ + "None"@ + ": "@ + e.error@,
{
    let none = Seq::<char>::empty();
    assert(none + ": "@ + e.error@ + none =~= ": "@ + e.error@);
    if let Some(path) = e.source {
        assert(path@ + ": "@ + e.error@ + none =~= path@ + ": "@ + e.error@);
    }
    if let Some(text) = e.debug {
        assert(none + ": "@ + e.error@ + (" ["@ + text@ + "]"@) =~= ": "@ + e.error@ + (" ["@ + text@
            + "]"@));
    }
}

/// Why a pipeline does not play is what its bus says, every message of it; the bare error has to do
/// where the bus says nothing.
pub proof fn law_the_bus_says_why_it_does_not_play(error: Seq<char>, bus: Seq<BusError>)
    ensures
        bus_details(bus).len() == bus.len(),
        forall|i: int| 0 <= i < bus.len() ==> #[trigger] bus_details(bus)[i] == bus[i].detail(),
        bus.len() == 0 ==> play_failure(error, bus) == "bringing the pipeline to PLAYING: "@ + error,
        bus.len() > 0 ==> play_failure(error, bus) == "bringing the pipeline to PLAYING: "@ + joined(
            bus_details(bus),
            "; "@,
        ),
{
    if bus.len() > 0 {
        let details = bus_details(bus);
        reveal_strlit(": ");
        assert(details.last() == bus.last().detail());
        assert(details.last().len() >= 2);
        assert(joined(details, "; "@).len() >= details.last().len());
    }
}

/// Which events a stage waits for.
pub open spec fn belongs(stage: StageView, event: StageEvent) -> bool {
    match event {
        StageEvent::Done => !(stage is Settle) && !(stage is Serve) && !(stage is Ended),
        StageEvent::Failed(_) => !(stage is Play) && !(stage is Settle) && !(stage is Serve) && !(
        stage is Ended),
        StageEvent::PlayRefused { .. } => stage is Play,
        StageEvent::Settled(_) => stage is Settle,
        StageEvent::NeverSettled { .. } => stage is Settle,
        StageEvent::NoBus => stage is Serve,
        StageEvent::EndOfStream => stage is Serve,
        StageEvent::PipelineError(_) => stage is Serve,
        StageEvent::OtherMessage => false,
    }
}

/// A run moves on exactly at the events that its stage waits for; every other event changes nothing
/// and prints nothing.
pub proof fn law_a_run_moves_only_at_its_events(
    launch: LaunchView,
    stage: StageView,
    event: StageEvent,
)
    ensures
        stage_after(launch, stage, event) == stage <==> !belongs(stage, event),
        !belongs(stage, event) ==> lines_on(launch, stage, event).len() == 0,
{
}

/// The stages of a run in which all goes well: audio is attached only where there is some, and a
/// probe ends once the encoder was proved.
pub proof fn law_the_stages_of_a_good_run(launch: LaunchView, outcome: Option<SessionErrorView>)
    ensures
        ({
            let done = |stage: StageView| stage_after(launch, stage, StageEvent::Done);
            &&& done(StageView::PrepareRuntimeDir) == StageView::MakeSink
            &&& done(StageView::MakeSink) == StageView::BuildCapture
            &&& launch.audio is Some ==> done(StageView::BuildCapture) == StageView::AttachAudio
            &&& launch.audio is None ==> done(StageView::BuildCapture) == StageView::Play
            &&& done(StageView::AttachAudio) == StageView::Play
            &&& done(StageView::Play) == StageView::Settle
            &&& launch.probe ==> done(StageView::ProveEncoder) == StageView::Reset(None)
            &&& !launch.probe ==> done(StageView::ProveEncoder) == StageView::OpenControl
            &&& done(StageView::OpenControl) == StageView::Serve
            &&& done(StageView::Reset(outcome)) == StageView::Ended(outcome)
        }),
        stage_after(launch, StageView::Settle, StageEvent::Settled(PipelineState::Playing))
            == StageView::ProveEncoder,
        stage_after(launch, StageView::Serve, StageEvent::EndOfStream) == StageView::Reset(None),
{
}

/// How a run ends when a stage fails: with the error of that stage, which the graph and the audio
/// branch name as theirs; a pipeline that was told to play is brought to NULL first, unless it is
/// only found not to have settled.
pub proof fn law_a_failure_ends_the_run_with_its_error(
    launch: LaunchView,
    e: SessionError,
    outcome: Option<SessionErrorView>,
    state: PipelineState,
    text: String,
    bus: Vec<BusError>,
    bus_error: BusError,
)
    ensures
        ({
            let failed = |stage: StageView| stage_after(launch, stage, StageEvent::Failed(e));
            &&& failed(StageView::PrepareRuntimeDir) == StageView::Ended(Some(e@))
            &&& failed(StageView::MakeSink) == StageView::Ended(Some(e@))
            &&& failed(StageView::BuildCapture) == StageView::Ended(
                Some(
                    SessionErrorView {
                        message: "building the capture-to-webrtcsink graph"@,
                        causes: seq![e@.message] + e@.causes,
                    },
                ),
            )
            &&& failed(StageView::AttachAudio) == StageView::Ended(
                Some(
                    SessionErrorView {
                        message: "attaching the audio branch"@,
                        causes: seq![e@.message] + e@.causes,
                    },
                ),
            )
            &&& failed(StageView::ProveEncoder) == StageView::Ended(Some(e@))
            &&& failed(StageView::OpenControl) == StageView::Serve
            &&& failed(StageView::Reset(outcome)) == StageView::Ended(outcome)
        }),
        stage_after(launch, StageView::Play, StageEvent::PlayRefused { error: text, bus })
            == StageView::Reset(
            Some(SessionErrorView { message: play_failure(text@, bus@), causes: Seq::empty() }),
        ),
        state != PipelineState::Playing ==> stage_after(
            launch,
            StageView::Settle,
            StageEvent::Settled(state),
        ) == StageView::Ended(
            Some(
                SessionErrorView {
                    message: "the pipeline settled at "@ + state.label() + ", not PLAYING"@,
                    causes: Seq::empty(),
                },
            ),
        ),
        stage_after(launch, StageView::Settle, StageEvent::NeverSettled { cause: text })
            == StageView::Ended(
            Some(
                SessionErrorView {
                    message: "the pipeline never settled into a state"@,
                    causes: seq![text@],
                },
            ),
        ),
        stage_after(launch, StageView::Serve, StageEvent::NoBus) == StageView::Ended(
            Some(SessionErrorView { message: "the pipeline has no bus"@, causes: Seq::empty() }),
        ),
        stage_after(launch, StageView::Serve, StageEvent::PipelineError(bus_error))
            == StageView::Reset(
            Some(SessionErrorView { message: bus_error.fatal(), causes: Seq::empty() }),
        ),
        PipelineState::VoidPending.label() == "VoidPending"@,
        PipelineState::Null.label() == "Null"@,
        PipelineState::Ready.label() == "Ready"@,
        PipelineState::Paused.label() == "Paused"@,
{
}

/// What a run prints, and when; at all other events nothing.
pub proof fn law_a_run_prints_what_has_happened(
    launch: LaunchView,
    stage: StageView,
    event: StageEvent,
)
    ensures
        stage is BuildCapture && event is Done && launch.audio is None ==> lines_on(
            launch,
            stage,
            event,
        ) == seq![LineView::Printed("audio: disabled by CSTREAM_AUDIO=off"@)],
        stage is AttachAudio && event is Done ==> (launch.audio matches Some(config) ==> lines_on(
            launch,
            stage,
            event,
        ) == seq![
            LineView::Printed(
                "audio: capturing "@ + config.target + " (capture_sink="@ + (if config.capture_sink {
                    "true"@
                } else {
                    "false"@
                }) + ")"@,
            ),
        ]),
        stage is Settle && event == StageEvent::Settled(PipelineState::Playing) ==> {
            let playing = LineView::Printed(
                "CSTREAM-PIPELINE-PLAYING encoder="@ + launch.encoder.label(),
            );
            &&& launch.frame_dir is None ==> lines_on(launch, stage, event) == seq![playing]
            &&& launch.frame_dir matches Some(dir) ==> lines_on(launch, stage, event) == seq![
                playing,
                LineView::Printed("CSTREAM-FRAME-TAP dir="@ + dir),
            ]
        },
        stage is ProveEncoder && event is Done ==> lines_on(launch, stage, event) == seq![
            LineView::Printed("CSTREAM-ENCODER-OPENABLE encoder="@ + launch.encoder.label()),
        ],
        stage is OpenControl && event is Done ==> lines_on(launch, stage, event) == seq![
            LineView::Printed("CSTREAM-CONTROL-LISTENING socket="@ + launch.control_socket),
        ],
        stage is OpenControl ==> (event matches StageEvent::Failed(e) ==> lines_on(
            launch,
            stage,
            event,
        ) == seq![
            LineView::Logged("cstream-streamer: control socket unavailable: "@ + e@.chain()),
        ]),
        lines_on(launch, stage, event).len() > 0 ==> {
            ||| stage is BuildCapture && event is Done && launch.audio is None
            ||| stage is AttachAudio && event is Done && launch.audio is Some
            ||| stage is Settle && event == StageEvent::Settled(PipelineState::Playing)
            ||| stage is ProveEncoder && event is Done
            ||| stage is OpenControl && (event is Done || event is Failed)
        },
{
}

/// Stages, lines and errors stand for themselves.
pub proof fn law_stages_and_lines_stand_for_themselves(
    text: String,
    e: SessionError,
    list: Seq<Line>,
)
    ensures
        Stage::PrepareRuntimeDir@ == StageView::PrepareRuntimeDir,
        Stage::MakeSink@ == StageView::MakeSink,
        Stage::BuildCapture@ == StageView::BuildCapture,
        Stage::AttachAudio@ == StageView::AttachAudio,
        Stage::Play@ == StageView::Play,
        Stage::Settle@ == StageView::Settle,
        Stage::ProveEncoder@ == StageView::ProveEncoder,
        Stage::OpenControl@ == StageView::OpenControl,
        Stage::Serve@ == StageView::Serve,
        Stage::Reset(Ok(()))@ == StageView::Reset(None),
        Stage::Reset(Err(e))@ == StageView::Reset(Some(e@)),
        Stage::Ended(Ok(()))@ == StageView::Ended(None),
        Stage::Ended(Err(e))@ == StageView::Ended(Some(e@)),
        Line::Printed(text)@ == LineView::Printed(text@),
        Line::Logged(text)@ == LineView::Logged(text@),
        lines_of(list).len() == list.len(),
        forall|i: int| 0 <= i < list.len() ==> #[trigger] lines_of(list)[i] == list[i]@,
        e@.message == e.message@,
        e@.causes == texts(e.causes@),
{
}

}
