//! The delivery half: which encoder carries the stream, and the sink that uses it.
//!
//! The failure that this module exists to prevent is a stream that works while it runs on the CPU.
//! The policy `va` therefore fails loudly rather than degrade, and `auto` reports which branch it
//! took.

use vstd::prelude::*;

use crate::graph::{
    properties, Caps, CapsView, Element, ElementView, Property, Recipe, RecipeView, Setting,
    SettingView, Structure, StructureView,
};
use crate::rank::{find, Registry, HARDWARE_ENCODERS};
use crate::text::{
    debug_quoted, join, joined, opt_str, opt_text, parse_unsigned, quoted, same_text, texts, trim,
    trimmed, unsigned,
};

verus! {

/// What the operator asked for.
#[derive(Debug, Clone, Copy, PartialEq, Eq, Structural)]
pub enum EncodePolicy {
    /// Hardware when this host has it, software otherwise.
    Auto,
    /// Hardware, or fail. Never a silent CPU fallback.
    Va,
    /// Software, even where hardware exists.
    Software,
}

/// Why no encoder carries the stream.
#[derive(Debug, PartialEq, Eq)]
pub enum WebrtcError {
    /// The policy's word is none that is known.
    UnknownPolicy { word: String },
    /// Hardware was asked for, and the host has none.
    NoHardware,
    /// The encoder could not be made.
    CannotCreate { name: String, cause: String },
    /// The encoder was made but does not open.
    WillNotOpen { name: String, cause: String },
}

pub enum WebrtcErrorView {
    UnknownPolicy { word: Seq<char> },
    NoHardware,
    CannotCreate { name: Seq<char>, cause: Seq<char> },
    WillNotOpen { name: Seq<char>, cause: Seq<char> },
}

impl View for WebrtcError {
    type V = WebrtcErrorView;

    open spec fn view(&self) -> WebrtcErrorView {
        match self {
            WebrtcError::UnknownPolicy { word } => WebrtcErrorView::UnknownPolicy { word: word@ },
            WebrtcError::NoHardware => WebrtcErrorView::NoHardware,
            WebrtcError::CannotCreate { name, cause } => WebrtcErrorView::CannotCreate {
                name: name@,
                cause: cause@,
            },
            WebrtcError::WillNotOpen { name, cause } => WebrtcErrorView::WillNotOpen {
                name: name@,
                cause: cause@,
            },
        }
    }
}

/// The names of the hardware encoders.
pub open spec fn hardware_names() -> Seq<Seq<char>> {
    HARDWARE_ENCODERS@.map_values(|n: &'static str| n@)
}

/// The words for a policy that is not known, given its quoted word.
pub open spec fn unknown_policy(quoted_word: Seq<char>) -> Seq<char> {
    "unknown encode policy "@ + quoted_word + ": expected one of auto, va, software"@
}

impl WebrtcErrorView {
    /// The error in words, without its cause.
    pub open spec fn message(self) -> Seq<char> {
        match self {
            WebrtcErrorView::UnknownPolicy { word } => unknown_policy(quoted(word)),
            WebrtcErrorView::NoHardware =>
                "encode: va was requested but no VA-API encoder is available on this render node (looked for "@
                + joined(hardware_names(), ", "@)
                + "). Refusing to fall back to software: a CPU stream at this density is a capacity failure, not a degraded mode."@,
            WebrtcErrorView::CannotCreate { name, .. } => "creating "@ + name,
            WebrtcErrorView::WillNotOpen { name, .. } => name
                + " is registered but will not open on this render node -- the plugin loads even where the hardware is unusable, so a registry lookup alone proves nothing"@,
        }
    }

    /// What the error was caused by.
    pub open spec fn cause(self) -> Option<Seq<char>> {
        match self {
            WebrtcErrorView::CannotCreate { cause, .. } => Some(cause),
            WebrtcErrorView::WillNotOpen { cause, .. } => Some(cause),
            _ => None,
        }
    }
}

fn hardware_list() -> (r: Vec<String>)
    ensures
        texts(r@) == hardware_names(),
{
    let r = vec![HARDWARE_ENCODERS[0].to_owned(), HARDWARE_ENCODERS[1].to_owned()];
    assert(texts(r@) =~= hardware_names());
    r
}

/// The words for a policy that is not known, given its quoted word.
pub fn unknown_policy_text(quoted_word: &str) -> (r: String)
    ensures
        r@ == unknown_policy(quoted_word@),
{
    let mut r = "unknown encode policy ".to_owned();
    r.append(quoted_word);
    r.append(": expected one of auto, va, software");
    r
}

impl WebrtcError {
    /// The error in words, without its cause.
    pub fn message(&self) -> (r: String)
        ensures
            r@ == self@.message(),
    {
        match self {
            WebrtcError::UnknownPolicy { word } => unknown_policy_text(
                debug_quoted(word.as_str()).as_str(),
            ),
            WebrtcError::NoHardware => {
                let mut r =
                    "encode: va was requested but no VA-API encoder is available on this render node (looked for ".to_owned();
                r.append(join(&hardware_list(), ", ").as_str());
                r.append(
                    "). Refusing to fall back to software: a CPU stream at this density is a capacity failure, not a degraded mode.",
                );
                r
            },
            WebrtcError::CannotCreate { name, .. } => {
                let mut r = "creating ".to_owned();
                r.append(name.as_str());
                r
            },
            WebrtcError::WillNotOpen { name, .. } => {
                let mut r = name.clone();
                r.append(
                    " is registered but will not open on this render node -- the plugin loads even where the hardware is unusable, so a registry lookup alone proves nothing",
                );
                r
            },
        }
    }

    /// What the error was caused by.
    pub fn cause(&self) -> (r: Option<&String>)
        ensures
            (match r {
                Some(cause) => Some(cause@),
                None => None,
            }) == self@.cause(),
    {
        match self {
            WebrtcError::CannotCreate { cause, .. } => Some(cause),
            WebrtcError::WillNotOpen { cause, .. } => Some(cause),
            _ => None,
        }
    }
}

/// The policy of a word.
pub open spec fn policy_of(word: Seq<char>) -> Option<EncodePolicy> {
    if word == "auto"@ {
        Some(EncodePolicy::Auto)
    } else if word == "va"@ {
        Some(EncodePolicy::Va)
    } else if word == "software"@ {
        Some(EncodePolicy::Software)
    } else {
        None
    }
}

impl EncodePolicy {
    /// Parses the encoding policy. An unknown word is an error rather than a default: treating a
    /// typo as `auto` is how a deployment that is meant for hardware ends up on the CPU.
    pub fn parse(s: &str) -> (r: Result<EncodePolicy, WebrtcError>)
        ensures
            match policy_of(trimmed(s@)) {
                Some(policy) => r == Ok::<EncodePolicy, WebrtcError>(policy),
                None => r matches Err(e) && e@ == (WebrtcErrorView::UnknownPolicy {
                    word: trimmed(s@),
                }),
            },
    {
        let word = trim(s);
        if same_text(word, "auto") {
            Ok(EncodePolicy::Auto)
        } else if same_text(word, "va") {
            Ok(EncodePolicy::Va)
        } else if same_text(word, "software") {
            Ok(EncodePolicy::Software)
        } else {
            Err(WebrtcError::UnknownPolicy { word: word.to_owned() })
        }
    }
}

/// What the policy resolved to on this host.
#[derive(Debug, PartialEq, Eq)]
pub enum Encoder {
    /// A hardware element, named so that a probe can assert which one was chosen.
    Hardware(String),
    Software,
}

pub enum EncoderView {
    Hardware(Seq<char>),
    Software,
}

impl View for Encoder {
    type V = EncoderView;

    open spec fn view(&self) -> EncoderView {
        match self {
            Encoder::Hardware(name) => EncoderView::Hardware(name@),
            Encoder::Software => EncoderView::Software,
        }
    }
}

impl EncoderView {
    pub open spec fn label(self) -> Seq<char> {
        match self {
            EncoderView::Hardware(name) => "hardware:"@ + name,
            EncoderView::Software => "software"@,
        }
    }
}

impl Clone for Encoder {
    fn clone(&self) -> (r: Encoder)
        ensures
            r@ == self@,
    {
        match self {
            Encoder::Hardware(name) => Encoder::Hardware(name.clone()),
            Encoder::Software => Encoder::Software,
        }
    }
}

impl Encoder {
    pub fn label(&self) -> (r: String)
        ensures
            r@ == self@.label(),
    {
        match self {
            Encoder::Hardware(name) => {
                let mut r = "hardware:".to_owned();
                r.append(name.as_str());
                r
            },
            Encoder::Software => "software".to_owned(),
        }
    }
}

/// What a policy resolves to, given the hardware encoder that was found; `None` where the stream
/// must not start.
pub open spec fn resolved(policy: EncodePolicy, found: Option<Seq<char>>) -> Option<EncoderView> {
    match policy {
        EncodePolicy::Software => Some(EncoderView::Software),
        EncodePolicy::Auto => match found {
            Some(name) => Some(EncoderView::Hardware(name)),
            None => Some(EncoderView::Software),
        },
        EncodePolicy::Va => match found {
            Some(name) => Some(EncoderView::Hardware(name)),
            None => None,
        },
    }
}

/// `r` is what a policy resolves to.
pub open spec fn resolves(
    policy: EncodePolicy,
    found: Option<Seq<char>>,
    r: Result<Encoder, WebrtcError>,
) -> bool {
    match resolved(policy, found) {
        Some(encoder) => r matches Ok(got) && got@ == encoder,
        None => r matches Err(e) && e@ == WebrtcErrorView::NoHardware,
    }
}

/// Resolves a policy, given the hardware encoder that was found.
pub fn resolve_encoder(policy: EncodePolicy, found: Option<&str>) -> (r: Result<
    Encoder,
    WebrtcError,
>)
    ensures
        resolves(policy, opt_str(found), r),
{
    match (policy, found) {
        (EncodePolicy::Software, _) => Ok(Encoder::Software),
        (_, Some(name)) => Ok(Encoder::Hardware(name.to_owned())),
        (EncodePolicy::Auto, None) => Ok(Encoder::Software),
        (EncodePolicy::Va, None) => Err(WebrtcError::NoHardware),
    }
}

/// `found` is the first hardware encoder that `present` said yes to; before it, it said no.
pub open spec fn probed<F: Fn(&str) -> bool>(present: F, found: Option<int>) -> bool {
    match found {
        Some(k) => {
            &&& 0 <= k < HARDWARE_ENCODERS@.len()
            &&& call_ensures(present, (HARDWARE_ENCODERS@[k],), true)
            &&& forall|j: int|
                0 <= j < k ==> call_ensures(present, (#[trigger] HARDWARE_ENCODERS@[j],), false)
        },
        None => forall|j: int|
            0 <= j < HARDWARE_ENCODERS@.len() ==> call_ensures(
                present,
                (#[trigger] HARDWARE_ENCODERS@[j],),
                false,
            ),
    }
}

/// The name of the hardware encoder at that position.
pub open spec fn hardware_name(found: Option<int>) -> Option<Seq<char>> {
    match found {
        Some(k) => Some(HARDWARE_ENCODERS@[k]@),
        None => None,
    }
}

/// Resolves a policy against a host.
///
/// `present` says whether the host has an element; it is asked for the hardware encoders in turn,
/// up to the first that is there.
pub fn select_encoder<F: Fn(&str) -> bool>(policy: EncodePolicy, present: &F) -> (r: Result<
    Encoder,
    WebrtcError,
>)
    requires
        forall|j: int|
            0 <= j < HARDWARE_ENCODERS@.len() ==> call_requires(
                *present,
                (#[trigger] HARDWARE_ENCODERS@[j],),
            ),
    ensures
        exists|found: Option<int>| #[trigger]
            probed(*present, found) && resolves(policy, hardware_name(found), r),
        policy == EncodePolicy::Software ==> r == Ok::<Encoder, WebrtcError>(Encoder::Software),
        r matches Ok(Encoder::Hardware(name)) ==> {
            ||| name@ == "vah264enc"@ && call_ensures(*present, ("vah264enc",), true)
            ||| name@ == "vah265enc"@ && call_ensures(*present, ("vah264enc",), false)
                && call_ensures(*present, ("vah265enc",), true)
        },
        r is Err || (r == Ok::<Encoder, WebrtcError>(Encoder::Software) && policy
            != EncodePolicy::Software) ==> call_ensures(*present, ("vah264enc",), false)
            && call_ensures(*present, ("vah265enc",), false),
        r is Err ==> policy == EncodePolicy::Va,
        policy == EncodePolicy::Va ==> r != Ok::<Encoder, WebrtcError>(Encoder::Software),
{
    assert(HARDWARE_ENCODERS@[0] == "vah264enc" && HARDWARE_ENCODERS@[1] == "vah265enc");
    let mut k: usize = 0;
    while k < HARDWARE_ENCODERS.len()
        invariant
            k <= HARDWARE_ENCODERS@.len(),
            forall|j: int|
                0 <= j < HARDWARE_ENCODERS@.len() ==> call_requires(
                    *present,
                    (#[trigger] HARDWARE_ENCODERS@[j],),
                ),
            forall|j: int|
                0 <= j < k ==> call_ensures(*present, (#[trigger] HARDWARE_ENCODERS@[j],), false),
        decreases HARDWARE_ENCODERS@.len() - k,
    {
        let name = HARDWARE_ENCODERS[k];
        if present(name) {
            assert(probed(*present, Some(k as int)));
            assert(k == 1 ==> call_ensures(*present, (HARDWARE_ENCODERS@[0],), false));
            return resolve_encoder(policy, Some(name));
        }
        k = k + 1;
    }
    assert(probed(*present, None));
    assert(call_ensures(*present, (HARDWARE_ENCODERS@[0],), false));
    assert(call_ensures(*present, (HARDWARE_ENCODERS@[1],), false));
    resolve_encoder(policy, None)
}

/// Whether the registry has an element of that name.
pub fn registry_has(registry: &Registry, name: &str) -> (r: bool)
    ensures
        r == (find(registry@, name@) is Some),
{
    registry.find(name).is_some()
}

/// The port that the signalling server listens on by default.
pub const DEFAULT_SIGNALLING_PORT: u32 = 8443;

/// The port that a setting asks for: a number from 1 to 65535, else the default.
pub open spec fn port_setting(raw: Option<Seq<char>>) -> nat {
    match raw {
        None => DEFAULT_SIGNALLING_PORT as nat,
        Some(s) => match unsigned(s) {
            Some(n) => if 1 <= n <= 65535 {
                n
            } else {
                DEFAULT_SIGNALLING_PORT as nat
            },
            None => DEFAULT_SIGNALLING_PORT as nat,
        },
    }
}

/// The port that the in-process signalling server listens on, from its setting, `raw`.
///
/// It can be set because a second streamer on the same host would otherwise collide on the default.
pub fn signalling_port(raw: Option<&str>) -> (r: u32)
    ensures
        r == port_setting(opt_str(raw)),
{
    match raw {
        None => DEFAULT_SIGNALLING_PORT,
        Some(s) => match parse_unsigned(s, 65535) {
            Some(n) => if n == 0 {
                DEFAULT_SIGNALLING_PORT
            } else {
                n as u32
            },
            None => DEFAULT_SIGNALLING_PORT,
        },
    }
}

/// The caps that pin the stream to H.264.
pub open spec fn h264_caps() -> CapsView {
    CapsView {
        structure: StructureView { name: "video/x-h264"@, fields: Seq::empty() },
        features: Seq::empty(),
    }
}

/// The sink of the stream.
pub open spec fn sink_recipe(port: u32) -> RecipeView {
    ElementView::plain("webrtcsink"@).with("video-caps"@, SettingView::Caps(h264_caps())).with(
        "run-signalling-server"@,
        SettingView::Bool(true),
    ).with("signalling-server-port"@, SettingView::U32(port)).or_say(
        "creating webrtcsink — is gst-plugin-rswebrtc installed?"@,
    )
}

/// One tuning of an encoder, where it applies.
pub open spec fn tuning_if(applies: bool, name: Seq<char>, value: SettingView) -> Seq<
    (Seq<char>, SettingView),
> {
    if applies {
        seq![(name, value)]
    } else {
        Seq::empty()
    }
}

/// The tuning that makes an encoder with these properties usable interactively.
pub open spec fn tuning(has: Seq<Seq<char>>, want: EncoderView) -> Seq<(Seq<char>, SettingView)> {
    tuning_if(
        has.contains("tune"@) && want is Software,
        "tune"@,
        SettingView::Parsed("zerolatency"@),
    ) + tuning_if(has.contains("key-int-max"@), "key-int-max"@, SettingView::U32(60)) + tuning_if(
        has.contains("bframes"@),
        "bframes"@,
        SettingView::U32(0),
    ) + tuning_if(has.contains("rate-control"@), "rate-control"@, SettingView::Parsed("cbr"@))
}

fn lists(items: &Vec<String>, name: &str) -> (r: bool)
    ensures
        r == texts(items@).contains(name@),
{
    let mut i: usize = 0;
    while i < items.len()
        invariant
            i <= items.len(),
            forall|j: int| 0 <= j < i ==> #[trigger] texts(items@)[j] != name@,
        decreases items.len() - i,
    {
        if same_text(items[i].as_str(), name) {
            assert(texts(items@)[i as int] == name@);
            return true;
        }
        i = i + 1;
    }
    false
}

/// The live-streaming tuning for an encoder that has the properties `has`.
///
/// A desktop stream is latency-bound: an encoder that buffers for quality lets the cursor lag
/// behind the pointer. Hardware and software encoders do not share a property set, so only what is
/// there is set.
pub fn tune_encoder(has: &Vec<String>, want: &Encoder) -> (r: Vec<Property>)
    ensures
        properties(r@) == tuning(texts(has@), want@),
{
    let mut r: Vec<Property> = Vec::new();
    let software = match want {
        Encoder::Software => true,
        Encoder::Hardware(_) => false,
    };
    if lists(has, "tune") && software {
        r.push(
            Property {
                name: "tune".to_owned(),
                value: Setting::Parsed("zerolatency".to_owned()),
            },
        );
    }
    if lists(has, "key-int-max") {
        r.push(Property { name: "key-int-max".to_owned(), value: Setting::U32(60) });
    }
    if lists(has, "bframes") {
        r.push(Property { name: "bframes".to_owned(), value: Setting::U32(0) });
    }
    if lists(has, "rate-control") {
        r.push(
            Property {
                name: "rate-control".to_owned(),
                value: Setting::Parsed("cbr".to_owned()),
            },
        );
    }
    assert(properties(r@) =~= tuning(texts(has@), want@));
    r
}

/// The answer to the sink's question how an encoder is to be set up.
pub struct EncoderSetup {
    pub settings: Vec<Property>,
    /// Whether the encoder is entirely configured. Where it is not, the sink's own handler runs
    /// afterwards and overwrites the settings.
    pub configured: bool,
}

/// The sink that carries the encoded stream.
pub struct Sink {
    /// How the element is made.
    pub recipe: Recipe,
    /// The encoder that the stream was promised.
    pub encoder: Encoder,
}

impl Sink {
    /// Sets up an encoder that the sink has made, given the properties that it has; `None` where
    /// the sink handed over no encoder.
    ///
    /// The encoder always counts as configured: a handler that says otherwise appears to work and
    /// silently has no effect.
    pub fn encoder_setup(&self, has: Option<&Vec<String>>) -> (r: EncoderSetup)
        ensures
            r.configured,
            properties(r.settings@) == match has {
                Some(has) => tuning(texts(has@), self.encoder@),
                None => Seq::empty(),
            },
    {
        let settings = match has {
            Some(has) => tune_encoder(has, &self.encoder),
            None => {
                let none: Vec<Property> = Vec::new();
                assert(properties(none@) =~= Seq::empty());
                none
            },
        };
        EncoderSetup { settings, configured: true }
    }
}

/// The sink that carries the stream of `encoder`, with its signalling server on `port`.
///
/// The caps are pinned to H.264: left open, the sink negotiates whatever the consumer prefers,
/// which can route around the encoder that this host was ranked for. The signalling server runs
/// in-process: without one the sink dials out, and fails moments after the pipeline plays.
pub fn make_sink(encoder: &Encoder, port: u32) -> (r: Sink)
    ensures
        r.recipe@ == sink_recipe(port),
        r.encoder@ == encoder@,
{
    let sink = Element::plain("webrtcsink").with(
        "video-caps",
        Setting::Caps(Caps::plain(Structure::new("video/x-h264"))),
    ).with("run-signalling-server", Setting::Bool(true)).with(
        "signalling-server-port",
        Setting::U32(port),
    );
    Sink {
        recipe: sink.or_say("creating webrtcsink — is gst-plugin-rswebrtc installed?"),
        encoder: encoder.clone(),
    }
}

/// What proving an encoder asks for next.
#[derive(Debug, PartialEq, Eq)]
pub enum OpenCall {
    /// Make the element of this name.
    Make(String),
    /// Bring it to READY, which opens the driver.
    Ready,
    /// Bring it back to NULL.
    Null,
}

pub enum OpenCallView {
    Make(Seq<char>),
    Ready,
    Null,
}

impl View for OpenCall {
    type V = OpenCallView;

    open spec fn view(&self) -> OpenCallView {
        match self {
            OpenCall::Make(name) => OpenCallView::Make(name@),
            OpenCall::Ready => OpenCallView::Ready,
            OpenCall::Null => OpenCallView::Null,
        }
    }
}

#[derive(Debug)]
enum OpenPhase {
    Making,
    Readying,
    /// Going back, with what opening it had failed with.
    Nulling(Option<String>),
    Proved,
    Disproved(WebrtcError),
}

/// How far the proof of an encoder has come.
pub enum OpenPhaseView {
    Making,
    Readying,
    Nulling(Option<Seq<char>>),
    Proved,
    Disproved(WebrtcErrorView),
}

/// The proof that an encoder can be opened on this host.
#[derive(Debug)]
pub struct OpenCheck {
    name: String,
    phase: OpenPhase,
}

pub struct OpenCheckView {
    pub name: Seq<char>,
    pub phase: OpenPhaseView,
}

impl View for OpenCheck {
    type V = OpenCheckView;

    closed spec fn view(&self) -> OpenCheckView {
        OpenCheckView {
            name: self.name@,
            phase: match self.phase {
                OpenPhase::Making => OpenPhaseView::Making,
                OpenPhase::Readying => OpenPhaseView::Readying,
                OpenPhase::Nulling(failure) => OpenPhaseView::Nulling(opt_text(failure)),
                OpenPhase::Proved => OpenPhaseView::Proved,
                OpenPhase::Disproved(e) => OpenPhaseView::Disproved(e@),
            },
        }
    }
}

impl OpenCheckView {
    /// The start of the proof. Software is trivially ready; only the hardware claim needs proof.
    pub open spec fn begin(encoder: EncoderView) -> OpenCheckView {
        match encoder {
            EncoderView::Hardware(name) => OpenCheckView { name, phase: OpenPhaseView::Making },
            EncoderView::Software => OpenCheckView {
                name: Seq::empty(),
                phase: OpenPhaseView::Proved,
            },
        }
    }

    pub open spec fn next_call(self) -> Option<OpenCallView> {
        match self.phase {
            OpenPhaseView::Making => Some(OpenCallView::Make(self.name)),
            OpenPhaseView::Readying => Some(OpenCallView::Ready),
            OpenPhaseView::Nulling(_) => Some(OpenCallView::Null),
            _ => None,
        }
    }

    /// After a call: with success, or with the cause of its failure.
    pub open spec fn returned(self, failure: Option<Seq<char>>) -> OpenCheckView {
        let phase = match self.phase {
            OpenPhaseView::Making => match failure {
                None => OpenPhaseView::Readying,
                Some(cause) => OpenPhaseView::Disproved(
                    WebrtcErrorView::CannotCreate { name: self.name, cause },
                ),
            },
            OpenPhaseView::Readying => OpenPhaseView::Nulling(failure),
            OpenPhaseView::Nulling(opening) => match opening {
                None => OpenPhaseView::Proved,
                Some(cause) => OpenPhaseView::Disproved(
                    WebrtcErrorView::WillNotOpen { name: self.name, cause },
                ),
            },
            other => other,
        };
        OpenCheckView { phase, ..self }
    }
}

impl OpenCheck {
    /// The call that comes next; none once the outcome is known.
    pub fn next_call(&self) -> (r: Option<OpenCall>)
        ensures
            (match r {
                Some(call) => Some(call@),
                None => None,
            }) == self@.next_call(),
    {
        match &self.phase {
            OpenPhase::Making => Some(OpenCall::Make(self.name.clone())),
            OpenPhase::Readying => Some(OpenCall::Ready),
            OpenPhase::Nulling(_) => Some(OpenCall::Null),
            _ => None,
        }
    }

    /// Takes what a call gave: nothing on success, else the cause of the failure.
    ///
    /// The way back to NULL is taken whatever opening gave, and what it gives itself is ignored: an
    /// element left in READY holds the render node open.
    pub fn on_return(&mut self, failure: Option<String>)
        ensures
            final(self)@ == old(self)@.returned(opt_text(failure)),
    {
        let mut phase = OpenPhase::Proved;
        std::mem::swap(&mut phase, &mut self.phase);
        self.phase = match phase {
            OpenPhase::Making => match failure {
                None => OpenPhase::Readying,
                Some(cause) => OpenPhase::Disproved(
                    WebrtcError::CannotCreate { name: self.name.clone(), cause },
                ),
            },
            OpenPhase::Readying => OpenPhase::Nulling(failure),
            OpenPhase::Nulling(None) => OpenPhase::Proved,
            OpenPhase::Nulling(Some(cause)) => OpenPhase::Disproved(
                WebrtcError::WillNotOpen { name: self.name.clone(), cause },
            ),
            OpenPhase::Proved => OpenPhase::Proved,
            OpenPhase::Disproved(e) => OpenPhase::Disproved(e),
        };
    }

    /// The outcome, once there is no call left to make.
    pub fn outcome(self) -> (r: Option<Result<(), WebrtcError>>)
        ensures
            match self@.phase {
                OpenPhaseView::Proved => r == Some(Ok::<(), WebrtcError>(())),
                OpenPhaseView::Disproved(e) => r matches Some(Err(got)) && got@ == e,
                _ => r is None,
            },
    {
        match self.phase {
            OpenPhase::Proved => Some(Ok(())),
            OpenPhase::Disproved(e) => Some(Err(e)),
            _ => None,
        }
    }
}

/// Begins to prove that a chosen encoder can actually be opened on this host.
///
/// Registration is not capability: a hardware element is registered whenever its plugin loads,
/// also on a machine with no usable render node.
pub fn verify_openable(encoder: &Encoder) -> (r: OpenCheck)
    ensures
        r@ == OpenCheckView::begin(encoder@),
{
    match encoder {
        Encoder::Hardware(name) => OpenCheck { name: name.clone(), phase: OpenPhase::Making },
        Encoder::Software => OpenCheck { name: String::new(), phase: OpenPhase::Proved },
    }
}

/// The decision table: `va` never ends in software, `software` never in hardware, and `auto` always
/// ends in one of the two; hardware is only ever what was found.
pub proof fn law_policies_never_degrade_silently(found: Option<Seq<char>>)
    ensures
        resolved(EncodePolicy::Va, found) matches Some(e) ==> e is Hardware,
        resolved(EncodePolicy::Va, found) is None <==> found is None,
        resolved(EncodePolicy::Software, found) == Some(EncoderView::Software),
        resolved(EncodePolicy::Auto, found) is Some,
        forall|policy: EncodePolicy| #[trigger]
            resolved(policy, found) matches Some(EncoderView::Hardware(name)) ==> found == Some(
                name,
            ),
{
}

/// A hardware encoder counts as proved exactly when it could be made and brought to READY; the way
/// back to NULL is taken in both cases, and its own outcome changes nothing.
pub proof fn law_proved_only_when_it_opened(
    name: Seq<char>,
    making: Option<Seq<char>>,
    opening: Option<Seq<char>>,
    closing: Option<Seq<char>>,
)
    ensures
        ({
            let start = OpenCheckView::begin(EncoderView::Hardware(name));
            let made = start.returned(making);
            let opened = made.returned(opening);
            let ended = opened.returned(closing);
            &&& start.next_call() == Some(OpenCallView::Make(name))
            &&& making is Some ==> made.next_call() is None && !(made.phase is Proved)
            &&& making is None ==> made.next_call() == Some(OpenCallView::Ready)
                && opened.next_call() == Some(OpenCallView::Null) && ended.next_call() is None
            &&& making is None ==> (ended.phase is Proved <==> opening is None)
        }),
{
}

/// A port is always one that can be bound to: from 1 to 65535.
pub proof fn law_the_port_is_valid(raw: Option<Seq<char>>)
    ensures
        1 <= port_setting(raw) <= 65535,
{
}

/// An encoder is only tuned by properties that it has.
pub proof fn law_tuning_sets_only_what_is_there(has: Seq<Seq<char>>, want: EncoderView)
    ensures
        forall|i: int|
            0 <= i < tuning(has, want).len() ==> has.contains((#[trigger] tuning(has, want)[i]).0),
{
}

/// Each policy has one word, and every other word is none.
pub proof fn law_a_policy_has_one_word(word: Seq<char>)
    ensures
        policy_of(word) == Some(EncodePolicy::Auto) <==> word == "auto"@,
        policy_of(word) == Some(EncodePolicy::Va) <==> word == "va"@,
        policy_of(word) == Some(EncodePolicy::Software) <==> word == "software"@,
{
    reveal_strlit("auto");
    reveal_strlit("va");
    reveal_strlit("software");
    assert("auto"@.len() != "va"@.len() && "auto"@.len() != "software"@.len());
}

/// Hardware that was found is used unless software was asked for, and under its own name; without
/// any, only `auto` falls back.
pub proof fn law_found_hardware_is_used(name: Seq<char>)
    ensures
        resolved(EncodePolicy::Auto, Some(name)) == Some(EncoderView::Hardware(name)),
        resolved(EncodePolicy::Va, Some(name)) == Some(EncoderView::Hardware(name)),
        resolved(EncodePolicy::Software, Some(name)) == Some(EncoderView::Software),
        resolved(EncodePolicy::Auto, None) == Some(EncoderView::Software),
        resolved(EncodePolicy::Va, None) is None,
        resolved(EncodePolicy::Software, None) == Some(EncoderView::Software),
{
}

/// An outcome stands for what the policy resolves to: the encoder, or the refusal.
pub proof fn law_an_outcome_is_the_encoder_or_the_refusal(
    policy: EncodePolicy,
    found: Option<Seq<char>>,
    r: Result<Encoder, WebrtcError>,
)
    requires
        resolves(policy, found, r),
    ensures
        r is Err <==> policy == EncodePolicy::Va && found is None,
        r matches Err(e) ==> e@ == WebrtcErrorView::NoHardware,
        r matches Ok(e) ==> (e@ == EncoderView::Software <==> policy == EncodePolicy::Software
            || found is None),
        r matches Ok(e) ==> (e@ matches EncoderView::Hardware(name) ==> found == Some(name)),
{
}

/// A setting that spells a port is that port, and any other means 8443.
pub proof fn law_a_port_is_taken_as_it_was_set(raw: Seq<char>, n: nat)
    ensures
        unsigned(raw) == Some(n) && 1 <= n <= 65535 ==> port_setting(Some(raw)) == n,
        unsigned(raw) == Some(n) && (n == 0 || n > 65535) ==> port_setting(Some(raw)) == 8443,
        unsigned(raw) is None ==> port_setting(Some(raw)) == 8443,
        port_setting(None) == 8443,
{
}

/// The sink is pinned to H.264, and its signalling server runs in-process on the port that was asked
/// for: sinks for two ports differ.
pub proof fn law_the_sink_signals_on_its_port(port: u32, other: u32)
    ensures
        sink_recipe(port).element.factory == "webrtcsink"@,
        sink_recipe(port).element.name is None,
        sink_recipe(port).element.properties == seq![
            (
                "video-caps"@,
                SettingView::Caps(
                    CapsView {
                        structure: StructureView {
                            name: "video/x-h264"@,
                            fields: Seq::empty(),
                        },
                        features: Seq::empty(),
                    },
                ),
            ),
            ("run-signalling-server"@, SettingView::Bool(true)),
            ("signalling-server-port"@, SettingView::U32(port)),
        ],
        sink_recipe(port).words == Some("creating webrtcsink — is gst-plugin-rswebrtc installed?"@),
        sink_recipe(port) == sink_recipe(other) ==> port == other,
{
    assert(sink_recipe(port).element.properties[2].1 == SettingView::U32(port));
    assert(sink_recipe(other).element.properties[2].1 == SettingView::U32(other));
    assert(sink_recipe(port).element.properties =~= seq![
        (
            "video-caps"@,
            SettingView::Caps(
                CapsView {
                    structure: StructureView { name: "video/x-h264"@, fields: Seq::empty() },
                    features: Seq::empty(),
                },
            ),
        ),
        ("run-signalling-server"@, SettingView::Bool(true)),
        ("signalling-server-port"@, SettingView::U32(port)),
    ]);
}

/// Which property an encoder is tuned by, and to which value: each exactly where the encoder has it,
/// `tune` for software only, and nothing else.
pub proof fn law_an_encoder_is_tuned_by_four_properties(
    has: Seq<Seq<char>>,
    want: EncoderView,
    name: Seq<char>,
    value: SettingView,
)
    ensures
        tuning(has, want).contains((name, value)) <==> has.contains(name) && {
            ||| name == "tune"@ && want == EncoderView::Software && value == SettingView::Parsed(
                "zerolatency"@,
            )
            ||| name == "key-int-max"@ && value == SettingView::U32(60)
            ||| name == "bframes"@ && value == SettingView::U32(0)
            ||| name == "rate-control"@ && value == SettingView::Parsed("cbr"@)
        },
        tuning(has, want).len() <= 4,
{
    let t1 = tuning_if(
        has.contains("tune"@) && want is Software,
        "tune"@,
        SettingView::Parsed("zerolatency"@),
    );
    let t2 = tuning_if(has.contains("key-int-max"@), "key-int-max"@, SettingView::U32(60));
    let t3 = tuning_if(has.contains("bframes"@), "bframes"@, SettingView::U32(0));
    let t4 = tuning_if(has.contains("rate-control"@), "rate-control"@, SettingView::Parsed("cbr"@));
    let all = tuning(has, want);
    assert(all == t1 + t2 + t3 + t4);
    let pair = (name, value);
    lemma_in_tuning(t1, t2, t3, t4, pair);
    lemma_one_tuning(
        has.contains("tune"@) && want is Software,
        "tune"@,
        SettingView::Parsed("zerolatency"@),
        pair,
    );
    lemma_one_tuning(has.contains("key-int-max"@), "key-int-max"@, SettingView::U32(60), pair);
    lemma_one_tuning(has.contains("bframes"@), "bframes"@, SettingView::U32(0), pair);
    lemma_one_tuning(
        has.contains("rate-control"@),
        "rate-control"@,
        SettingView::Parsed("cbr"@),
        pair,
    );
}

proof fn lemma_one_tuning(
    applies: bool,
    name: Seq<char>,
    value: SettingView,
    pair: (Seq<char>, SettingView),
)
    ensures
        tuning_if(applies, name, value).contains(pair) <==> applies && pair == (name, value),
{
    if applies {
        assert(tuning_if(applies, name, value)[0] == (name, value));
    }
}

proof fn lemma_in_tuning(
    a: Seq<(Seq<char>, SettingView)>,
    b: Seq<(Seq<char>, SettingView)>,
    c: Seq<(Seq<char>, SettingView)>,
    d: Seq<(Seq<char>, SettingView)>,
    pair: (Seq<char>, SettingView),
)
    ensures
        (a + b + c + d).contains(pair) <==> a.contains(pair) || b.contains(pair) || c.contains(pair)
            || d.contains(pair),
{
    let all = a + b + c + d;
    if a.contains(pair) {
        let i = choose|i: int| 0 <= i < a.len() && a[i] == pair;
        assert(all[i] == pair);
    }
    if b.contains(pair) {
        let i = choose|i: int| 0 <= i < b.len() && b[i] == pair;
        assert(all[a.len() + i] == pair);
    }
    if c.contains(pair) {
        let i = choose|i: int| 0 <= i < c.len() && c[i] == pair;
        assert(all[a.len() + b.len() + i] == pair);
    }
    if d.contains(pair) {
        let i = choose|i: int| 0 <= i < d.len() && d[i] == pair;
        assert(all[a.len() + b.len() + c.len() + i] == pair);
    }
    if all.contains(pair) {
        let i = choose|i: int| 0 <= i < all.len() && all[i] == pair;
        if i < a.len() {
            assert(a[i] == pair);
        } else if i < a.len() + b.len() {
            assert(b[i - a.len()] == pair);
        } else if i < a.len() + b.len() + c.len() {
            assert(c[i - a.len() - b.len()] == pair);
        } else {
            assert(d[i - a.len() - b.len() - c.len()] == pair);
        }
    }
}

/// The label of an encoder says which kind it is, and names hardware.
pub proof fn law_a_label_names_the_encoder(name: Seq<char>, other: Seq<char>)
    ensures
        EncoderView::Hardware(name).label() == "hardware:"@ + name,
        EncoderView::Software.label() == "software"@,
        EncoderView::Hardware(name).label() == EncoderView::Hardware(other).label() ==> name
            == other,
        EncoderView::Hardware(name).label() != EncoderView::Software.label(),
{
    reveal_strlit("hardware:");
    reveal_strlit("software");
    assert(("hardware:"@ + name).skip(9) =~= name);
    assert(("hardware:"@ + other).skip(9) =~= other);
    assert(("hardware:"@ + name)[0] == 'h' && "software"@[0] == 's');
}

/// Each error has its own words, which name what it is about, and hands on its cause.
pub proof fn law_an_error_says_what_went_wrong(word: Seq<char>, name: Seq<char>, cause: Seq<char>)
    ensures
        (WebrtcErrorView::UnknownPolicy { word }).message() == "unknown encode policy "@ + quoted(
            word,
        ) + ": expected one of auto, va, software"@,
        WebrtcErrorView::NoHardware.message()
            == "encode: va was requested but no VA-API encoder is available on this render node (looked for "@
            + ("vah264enc"@ + ", "@ + "vah265enc"@)
            + "). Refusing to fall back to software: a CPU stream at this density is a capacity failure, not a degraded mode."@,
        (WebrtcErrorView::CannotCreate { name, cause }).message() == "creating "@ + name,
        (WebrtcErrorView::WillNotOpen { name, cause }).message() == name
            + " is registered but will not open on this render node -- the plugin loads even where the hardware is unusable, so a registry lookup alone proves nothing"@,
        (WebrtcErrorView::CannotCreate { name, cause }).cause() == Some(cause),
        (WebrtcErrorView::WillNotOpen { name, cause }).cause() == Some(cause),
        (WebrtcErrorView::UnknownPolicy { word }).cause() is None,
        WebrtcErrorView::NoHardware.cause() is None,
{
    reveal_with_fuel(joined, 3);
    let names = hardware_names();
    assert(names =~= seq!["vah264enc"@, "vah265enc"@]);
    assert(names.drop_last() =~= seq!["vah264enc"@]);
    assert(joined(names, ", "@) =~= "vah264enc"@ + ", "@ + "vah265enc"@);
}

/// What the proof of an encoder ends with, for every answer of the host: software is proved at once,
/// and hardware by being made and opened; what fails is named, with its cause.
pub proof fn law_the_proof_of_an_encoder_ends_in_its_answer(
    name: Seq<char>,
    cause: Seq<char>,
    closing: Option<Seq<char>>,
)
    ensures
        OpenCheckView::begin(EncoderView::Software).phase == OpenPhaseView::Proved,
        OpenCheckView::begin(EncoderView::Software).next_call() is None,
        ({
            let start = OpenCheckView::begin(EncoderView::Hardware(name));
            let made = start.returned(None);
            &&& start.returned(Some(cause)).phase == OpenPhaseView::Disproved(
                WebrtcErrorView::CannotCreate { name, cause },
            )
            &&& made.returned(None).returned(closing).phase == OpenPhaseView::Proved
            &&& made.returned(Some(cause)).returned(closing).phase == OpenPhaseView::Disproved(
                WebrtcErrorView::WillNotOpen { name, cause },
            )
            &&& made.next_call() == Some(OpenCallView::Ready)
            &&& made.returned(None).next_call() == Some(OpenCallView::Null)
            &&& made.returned(Some(cause)).next_call() == Some(OpenCallView::Null)
        }),
{
}

/// Encoders, errors and calls stand for themselves.
pub proof fn law_encoders_and_errors_stand_for_themselves(word: String, name: String, cause: String)
    ensures
        Encoder::Hardware(name)@ == EncoderView::Hardware(name@),
        Encoder::Software@ == EncoderView::Software,
        (WebrtcError::UnknownPolicy { word })@ == (WebrtcErrorView::UnknownPolicy { word: word@ }),
        WebrtcError::NoHardware@ == WebrtcErrorView::NoHardware,
        (WebrtcError::CannotCreate { name, cause })@ == (WebrtcErrorView::CannotCreate {
            name: name@,
            cause: cause@,
        }),
        (WebrtcError::WillNotOpen { name, cause })@ == (WebrtcErrorView::WillNotOpen {
            name: name@,
            cause: cause@,
        }),
        OpenCall::Make(name)@ == OpenCallView::Make(name@),
        OpenCall::Ready@ == OpenCallView::Ready,
        OpenCall::Null@ == OpenCallView::Null,
{
}

}
