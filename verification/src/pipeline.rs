//! The capture pipeline.
//!
//! The graph is `waylanddisplaysrc ! DMABuf caps ! vapostproc ! <sink>`, and the DMABuf caps
//! filter is the load-bearing part: it is what forces the zero-copy path. Without it the source
//! may negotiate system memory, and the whole chain silently becomes a CPU copy that still works.

use vstd::prelude::*;

use crate::display::{make_source, source_recipe, DisplayError};
use crate::graph::{
    lemma_sound_in_turn, lemma_sound_step, links_of, makes_at, makes_none, makes_only, sound,
    standing_after, Caps, CapsView, Element, ElementView, Part, Plan, RecipeView, Setting, SettingView, Standing, StepView, Structure,
    StructureView, Value, ValueView,
};
use crate::text::opt_str;

verus! {

/// Video geometry for the capture chain.
#[derive(Debug, Clone, Copy, PartialEq, Eq, Structural)]
pub struct Geometry {
    pub width: u32,
    pub height: u32,
    pub framerate: u32,
}

pub const MIN_WIDTH: u32 = 640;

pub const MAX_WIDTH: u32 = 3840;

pub const MIN_HEIGHT: u32 = 480;

pub const MAX_HEIGHT: u32 = 2160;

pub const MIN_FRAMERATE: u32 = 1;

pub const MAX_FRAMERATE: u32 = 240;

/// The number between `low` and `high` that is nearest to `n`.
pub open spec fn clamped(n: u32, low: u32, high: u32) -> u32 {
    if n < low {
        low
    } else if n > high {
        high
    } else {
        n
    }
}

/// `n` rounded down to a multiple of 8.
pub open spec fn down_to_eight(n: u32) -> u32 {
    (n - n % 8) as u32
}

fn clamp(n: u32, low: u32, high: u32) -> (r: u32)
    ensures
        r == clamped(n, low, high),
{
    if n < low {
        low
    } else if n > high {
        high
    } else {
        n
    }
}

fn round_down(n: u32) -> (r: u32)
    ensures
        r == down_to_eight(n),
{
    n - n % 8
}

impl Default for Geometry {
    fn default() -> (r: Geometry)
        ensures
            r == (Geometry { width: 1920, height: 1080, framerate: 60 }),
    {
        Geometry { width: 1920, height: 1080, framerate: 60 }
    }
}

/// The signed number with the same 32 bits.
pub open spec fn signed(n: u32) -> i32 {
    if n <= i32::MAX {
        n as i32
    } else {
        (n - 0x1_0000_0000) as i32
    }
}

fn to_signed(n: u32) -> (r: i32)
    ensures
        r == signed(n),
{
    assert(n <= 0x7fff_ffffu32 ==> #[verifier::truncate] (n as i32) == n) by (bit_vector);
    assert(n > 0x7fff_ffffu32 ==> #[verifier::truncate] (n as i32) == n - 0x1_0000_0000)
        by (bit_vector);
    #[verifier::truncate]
    (n as i32)
}

impl Geometry {
    /// This geometry, clamped and rounded to what the compositor can configure.
    pub open spec fn sane(self) -> Geometry {
        Geometry {
            width: down_to_eight(clamped(self.width, MIN_WIDTH, MAX_WIDTH)),
            height: down_to_eight(clamped(self.height, MIN_HEIGHT, MAX_HEIGHT)),
            framerate: clamped(self.framerate, MIN_FRAMERATE, MAX_FRAMERATE),
        }
    }

    /// The caps of this geometry on the zero-copy path.
    pub open spec fn caps(self) -> CapsView {
        CapsView {
            structure: StructureView {
                name: "video/x-raw"@,
                fields: seq![
                    ("width"@, ValueView::I32(signed(self.width))),
                    ("height"@, ValueView::I32(signed(self.height))),
                    (
                        "framerate"@,
                        ValueView::Fraction { numer: signed(self.framerate), denom: 1 },
                    ),
                ],
            },
            features: seq!["memory:DMABuf"@],
        }
    }

    /// Clamps and rounds to what the compositor can actually configure.
    ///
    /// Rounding to 8 matters: an odd width reaches the encoder as a size that it cannot represent,
    /// and the failure surfaces far from the resize that caused it.
    pub fn sanitised(self) -> (r: Geometry)
        ensures
            r == self.sane(),
    {
        Geometry {
            width: round_down(clamp(self.width, MIN_WIDTH, MAX_WIDTH)),
            height: round_down(clamp(self.height, MIN_HEIGHT, MAX_HEIGHT)),
            framerate: clamp(self.framerate, MIN_FRAMERATE, MAX_FRAMERATE),
        }
    }

    /// The DMABuf caps that force the zero-copy path.
    pub fn dmabuf_caps(&self) -> (r: Caps)
        ensures
            r@ == self.caps(),
    {
        let structure = Structure::new("video/x-raw").with(
            "width",
            Value::I32(to_signed(self.width)),
        ).with("height", Value::I32(to_signed(self.height))).with(
            "framerate",
            Value::Fraction { numer: to_signed(self.framerate), denom: 1 },
        );
        Caps::with_feature(structure, "memory:DMABuf")
    }
}

/// Sanitised sizes are multiples of 8 in the supported range, and so is the rate in its own: what
/// reaches the encoder is something that it can represent.
pub proof fn law_sanitised_is_supported(g: Geometry)
    ensures
        g.sane().width % 8 == 0,
        g.sane().height % 8 == 0,
        MIN_WIDTH <= g.sane().width <= MAX_WIDTH,
        MIN_HEIGHT <= g.sane().height <= MAX_HEIGHT,
        MIN_FRAMERATE <= g.sane().framerate <= MAX_FRAMERATE,
{
}

/// A geometry is kept as it is exactly when it is supported.
pub proof fn law_a_supported_geometry_is_kept(g: Geometry)
    ensures
        g.sane() == g <==> {
            &&& g.width % 8 == 0
            &&& g.height % 8 == 0
            &&& MIN_WIDTH <= g.width <= MAX_WIDTH
            &&& MIN_HEIGHT <= g.height <= MAX_HEIGHT
            &&& MIN_FRAMERATE <= g.framerate <= MAX_FRAMERATE
        },
        g.sane().sane() == g.sane(),
{
}

/// Within the range a size is never enlarged, and gives up fewer than 8 pixels.
pub proof fn law_rounding_gives_up_fewer_than_eight(g: Geometry)
    requires
        MIN_WIDTH <= g.width <= MAX_WIDTH,
        MIN_HEIGHT <= g.height <= MAX_HEIGHT,
    ensures
        g.width - 8 < g.sane().width <= g.width,
        g.height - 8 < g.sane().height <= g.height,
{
}

/// Two sanitised geometries have the same caps only if they are the same: the caps tell what was
/// applied.
pub proof fn law_caps_tell_the_geometry(g: Geometry, h: Geometry)
    ensures
        g.sane().caps() == h.sane().caps() ==> g.sane() == h.sane(),
{
    let a = g.sane().caps().structure.fields;
    let b = h.sane().caps().structure.fields;
    if g.sane().caps() == h.sane().caps() {
        assert(a[0].1 == b[0].1);
        assert(a[1].1 == b[1].1);
        assert(a[2].1 == b[2].1);
    }
}

/// The capture half of the graph: how it is put together, and which of its parts others rewrite.
pub struct Capture {
    pub plan: Plan,
    pub source: Part,
    /// The caps filter that a resize rewrites. The element is named `size`, so it can be found by
    /// name too.
    pub size: Part,
}

/// The caps filter that a resize rewrites.
pub open spec fn size_filter(geom: Geometry) -> RecipeView {
    ElementView::plain("capsfilter"@).named("size"@).with(
        "caps"@,
        SettingView::Caps(geom.caps()),
    ).or_say("creating the size capsfilter"@)
}

/// The caps of the frame tap: one frame per second.
pub open spec fn tap_caps() -> CapsView {
    CapsView {
        structure: StructureView {
            name: "video/x-raw"@,
            fields: seq![("framerate"@, ValueView::Fraction { numer: 1, denom: 1 })],
        },
        features: Seq::empty(),
    }
}

/// The files that the frame tap writes into `dir`, at most eight at a time.
pub open spec fn tap_files(dir: Seq<char>) -> RecipeView {
    ElementView::plain("multifilesink"@).with(
        "location"@,
        SettingView::Text(dir + "/f%05d.jpg"@),
    ).with("max-files"@, SettingView::U32(8)).or_say("creating multifilesink"@)
}

/// From the source to the converter.
pub open spec fn front_steps(render_node: Seq<char>, geom: Geometry) -> Seq<StepView> {
    seq![
        StepView::Make { part: Part::Source, recipe: source_recipe(render_node) },
        StepView::Make { part: Part::Size, recipe: size_filter(geom) },
        StepView::Make {
            part: Part::Convert,
            recipe: ElementView::plain("vapostproc"@).or_say(
                "creating vapostproc — is gstreamer-vaapi/va installed?"@,
            ),
        },
        StepView::Add {
            parts: seq![Part::Source, Part::Size, Part::Convert],
            words: "adding the capture elements"@,
        },
        StepView::Link {
            parts: seq![Part::Source, Part::Size, Part::Convert],
            words: "linking the capture chain"@,
        },
    ]
}

/// From the converter straight to the sink.
pub open spec fn direct_steps() -> Seq<StepView> {
    seq![
        StepView::Add { parts: seq![Part::Sink], words: "adding the sink"@ },
        StepView::Link {
            parts: seq![Part::Convert, Part::Sink],
            words: "linking convert to the sink"@,
        },
    ]
}

/// From the converter to the sink, with a tap that writes frames into `dir`.
pub open spec fn tapped_steps(dir: Seq<char>) -> Seq<StepView> {
    seq![
        StepView::CreateDir { path: dir, words: "creating the frame-tap directory "@ + dir },
        StepView::Make {
            part: Part::Tee,
            recipe: ElementView::plain("tee"@).named("tap"@).or_say("creating the tee"@),
        },
        StepView::Make { part: Part::SinkQueue, recipe: ElementView::plain("queue"@).recipe() },
        StepView::Make { part: Part::TapQueue, recipe: ElementView::plain("queue"@).recipe() },
        StepView::Make { part: Part::TapRate, recipe: ElementView::plain("videorate"@).recipe() },
        StepView::Make {
            part: Part::TapRateCaps,
            recipe: ElementView::plain("capsfilter"@).with(
                "caps"@,
                SettingView::Caps(tap_caps()),
            ).recipe(),
        },
        StepView::Make {
            part: Part::TapConvert,
            recipe: ElementView::plain("videoconvert"@).recipe(),
        },
        StepView::Make { part: Part::TapEncoder, recipe: ElementView::plain("jpegenc"@).recipe() },
        StepView::Make { part: Part::TapFiles, recipe: tap_files(dir) },
        StepView::Add {
            parts: seq![
                Part::Tee,
                Part::SinkQueue,
                Part::Sink,
                Part::TapQueue,
                Part::TapRate,
                Part::TapRateCaps,
                Part::TapConvert,
                Part::TapEncoder,
                Part::TapFiles,
            ],
            words: "adding the tee branches"@,
        },
        StepView::Link {
            parts: seq![Part::Convert, Part::Tee],
            words: "linking convert to the tee"@,
        },
        StepView::Link {
            parts: seq![Part::SinkQueue, Part::Sink],
            words: "linking the encoder branch"@,
        },
        StepView::Link { parts: tap_chain(), words: "linking the frame tap"@ },
        StepView::Link {
            parts: seq![Part::Tee, Part::SinkQueue],
            words: "linking the tee to the encoder branch"@,
        },
        StepView::Link {
            parts: seq![Part::Tee, Part::TapQueue],
            words: "linking the tee to the frame tap"@,
        },
    ]
}

/// The elements of the frame tap, in order.
pub open spec fn tap_chain() -> Seq<Part> {
    seq![
        Part::TapQueue,
        Part::TapRate,
        Part::TapRateCaps,
        Part::TapConvert,
        Part::TapEncoder,
        Part::TapFiles,
    ]
}

/// The whole capture graph.
pub open spec fn capture_steps(
    render_node: Seq<char>,
    geom: Geometry,
    frame_dir: Option<Seq<char>>,
) -> Seq<StepView> {
    front_steps(render_node, geom) + match frame_dir {
        None => direct_steps(),
        Some(dir) => tapped_steps(dir),
    }
}

/// Plans `waylanddisplaysrc ! DMABuf caps ! vapostproc`, ending at the sink.
///
/// `frame_dir`, when set, adds a second branch off a `tee` that writes one JPEG per second into
/// that directory. The tap belongs to this pipeline: the source holds the render node, and a
/// second one could not observe this display. Both branches have a queue, so that a stall in the
/// tap does not hold up the stream.
pub fn build_capture(render_node: &str, geom: Geometry, frame_dir: Option<&str>) -> (r: Result<
    Capture,
    DisplayError,
>)
    ensures
        r is Err <==> render_node@.len() == 0,
        r matches Err(e) ==> e == DisplayError::EmptyRenderNode,
        r matches Ok(c) ==> {
            &&& c.plan@ == capture_steps(render_node@, geom.sane(), opt_str(frame_dir))
            &&& c.source == Part::Source
            &&& c.size == Part::Size
        },
{
    let geom = geom.sanitised();
    let source = match make_source(render_node) {
        Ok(source) => source,
        Err(e) => {
            return Err(e);
        },
    };
    let mut plan = Plan::new();
    plan.make(Part::Source, source);
    let size = Element::plain("capsfilter").named("size").with(
        "caps",
        Setting::Caps(geom.dmabuf_caps()),
    );
    plan.make(Part::Size, size.or_say("creating the size capsfilter"));
    plan.make(
        Part::Convert,
        Element::plain("vapostproc").or_say(
            "creating vapostproc — is gstreamer-vaapi/va installed?",
        ),
    );
    plan.add(vec![Part::Source, Part::Size, Part::Convert], "adding the capture elements");
    plan.link(vec![Part::Source, Part::Size, Part::Convert], "linking the capture chain");
    assert(plan@ =~~= front_steps(render_node@, geom));
    match frame_dir {
        None => {
            plan.add(vec![Part::Sink], "adding the sink");
            plan.link(vec![Part::Convert, Part::Sink], "linking convert to the sink");
            assert(plan@ =~~= front_steps(render_node@, geom) + direct_steps());
        },
        Some(dir) => {
            plan_tap(&mut plan, dir);
        },
    }
    Ok(Capture { plan, source: Part::Source, size: Part::Size })
}

fn plan_tap(plan: &mut Plan, dir: &str)
    ensures
        final(plan)@ == old(plan)@ + tapped_steps(dir@),
{
    let mut creating = "creating the frame-tap directory ".to_owned();
    creating.append(dir);
    plan.create_dir(dir, creating);
    plan.make(Part::Tee, Element::plain("tee").named("tap").or_say("creating the tee"));
    plan.make(Part::SinkQueue, Element::plain("queue").recipe());
    plan.make(Part::TapQueue, Element::plain("queue").recipe());
    plan.make(Part::TapRate, Element::plain("videorate").recipe());
    let rate = Caps::plain(
        Structure::new("video/x-raw").with("framerate", Value::Fraction { numer: 1, denom: 1 }),
    );
    assert(rate@ =~~= tap_caps());
    plan.make(
        Part::TapRateCaps,
        Element::plain("capsfilter").with("caps", Setting::Caps(rate)).recipe(),
    );
    plan.make(Part::TapConvert, Element::plain("videoconvert").recipe());
    plan.make(Part::TapEncoder, Element::plain("jpegenc").recipe());
    let mut location = dir.to_owned();
    location.append("/f%05d.jpg");
    let files = Element::plain("multifilesink").with("location", Setting::Text(location)).with(
        "max-files",
        Setting::U32(8),
    );
    plan.make(Part::TapFiles, files.or_say("creating multifilesink"));
    plan.add(
        vec![
            Part::Tee,
            Part::SinkQueue,
            Part::Sink,
            Part::TapQueue,
            Part::TapRate,
            Part::TapRateCaps,
            Part::TapConvert,
            Part::TapEncoder,
            Part::TapFiles,
        ],
        "adding the tee branches",
    );
    plan.link(vec![Part::Convert, Part::Tee], "linking convert to the tee");
    plan.link(vec![Part::SinkQueue, Part::Sink], "linking the encoder branch");
    plan.link(
        vec![
            Part::TapQueue,
            Part::TapRate,
            Part::TapRateCaps,
            Part::TapConvert,
            Part::TapEncoder,
            Part::TapFiles,
        ],
        "linking the frame tap",
    );
    plan.link(vec![Part::Tee, Part::SinkQueue], "linking the tee to the encoder branch");
    plan.link(vec![Part::Tee, Part::TapQueue], "linking the tee to the frame tap");
    assert(plan@ =~~= old(plan)@ + tapped_steps(dir@));
}

/// New caps for an element that is running, and the geometry that they stand for.
pub struct Rewrite {
    pub target: Part,
    pub caps: Caps,
    pub geometry: Geometry,
}

/// Applies a new geometry to a running capture: its size filter gets the caps of the sanitised
/// geometry, and the caller is told what was applied.
pub fn apply_geometry(capture: &Capture, geom: Geometry) -> (r: Rewrite)
    ensures
        r.target == capture.size,
        r.geometry == geom.sane(),
        r.caps@ == geom.sane().caps(),
{
    let geometry = geom.sanitised();
    Rewrite { target: capture.size, caps: geometry.dmabuf_caps(), geometry }
}

/// What stands once the front of the graph was put together.
spec fn front_standing() -> Standing {
    Standing {
        made: set![Part::Sink, Part::Source, Part::Size, Part::Convert],
        added: set![Part::Source, Part::Size, Part::Convert],
        links: set![(Part::Source, Part::Size), (Part::Size, Part::Convert)],
    }
}

proof fn lemma_front_is_sound(render_node: Seq<char>, geom: Geometry)
    ensures
        sound(Standing::sink_only(), front_steps(render_node, geom)),
        standing_after(Standing::sink_only(), front_steps(render_node, geom)) == front_standing(),
{
    let start = Standing::sink_only();
    let s = front_steps(render_node, geom);
    assert(s.take(0) =~= Seq::empty());
    lemma_sound_step(start, s, 0);
    lemma_sound_step(start, s, 1);
    lemma_sound_step(start, s, 2);
    lemma_sound_step(start, s, 3);
    lemma_sound_step(start, s, 4);
    assert(s.take(5) =~= s);
    reveal_with_fuel(links_of, 4);
    assert(standing_after(start, s) =~= front_standing());
}

proof fn lemma_direct_is_sound()
    ensures
        sound(front_standing(), direct_steps()),
        standing_after(front_standing(), direct_steps()).links =~= links_of(direct_chain()),
        standing_after(front_standing(), direct_steps()).made =~= standing_after(
            front_standing(),
            direct_steps(),
        ).added,
        standing_after(front_standing(), direct_steps()).added =~= direct_chain().to_set(),
{
    let start = front_standing();
    let s = direct_steps();
    assert(s.take(0) =~= Seq::empty());
    lemma_sound_step(start, s, 0);
    assert(standing_after(start, s.take(1)).added.contains(s[0]->Add_parts[0]));
    lemma_sound_step(start, s, 1);
    assert(s.take(2) =~= s);
    reveal_with_fuel(links_of, 5);
    let end = standing_after(start, s);
    let chain = direct_chain();
    assert(s[0]->Add_parts.contains(Part::Sink)) by {
        assert(s[0]->Add_parts[0] == Part::Sink);
    }
    assert(chain[0] == Part::Source && chain[1] == Part::Size && chain[2] == Part::Convert
        && chain[3] == Part::Sink);
    assert(end.added =~= chain.to_set());
}

/// The chain of elements that carries the stream when there is no tap.
pub open spec fn direct_chain() -> Seq<Part> {
    seq![Part::Source, Part::Size, Part::Convert, Part::Sink]
}

/// The chain of elements that carries the stream when there is a tap.
pub open spec fn tapped_chain() -> Seq<Part> {
    seq![Part::Source, Part::Size, Part::Convert, Part::Tee, Part::SinkQueue, Part::Sink]
}

proof fn lemma_tapped_is_sound(dir: Seq<char>)
    ensures
        sound(front_standing(), tapped_steps(dir)),
        standing_after(front_standing(), tapped_steps(dir)).links =~= links_of(tapped_chain())
            + links_of(seq![Part::Tee] + tap_chain()),
        standing_after(front_standing(), tapped_steps(dir)).made =~= standing_after(
            front_standing(),
            tapped_steps(dir),
        ).added,
        standing_after(front_standing(), tapped_steps(dir)).added =~= tapped_chain().to_set()
            + tap_chain().to_set(),
{
    let start = front_standing();
    let s = tapped_steps(dir);
    assert(s.take(0) =~= Seq::empty());
    lemma_sound_step(start, s, 0);
    lemma_sound_step(start, s, 1);
    lemma_sound_step(start, s, 2);
    lemma_sound_step(start, s, 3);
    lemma_sound_step(start, s, 4);
    lemma_sound_step(start, s, 5);
    lemma_sound_step(start, s, 6);
    lemma_sound_step(start, s, 7);
    lemma_sound_step(start, s, 8);
    lemma_sound_step(start, s, 9);
    let added = s[9]->Add_parts;
    assert(forall|k: int| 0 <= k < added.len() ==> added.contains(#[trigger] added[k]));
    assert(added.contains(added[0]) && added.contains(added[1]) && added.contains(added[2])
        && added.contains(added[3]) && added.contains(added[4]) && added.contains(added[5])
        && added.contains(added[6]) && added.contains(added[7]) && added.contains(added[8]));
    lemma_sound_step(start, s, 10);
    lemma_sound_step(start, s, 11);
    lemma_sound_step(start, s, 12);
    lemma_sound_step(start, s, 13);
    lemma_sound_step(start, s, 14);
    assert(s.take(15) =~= s);
    reveal_with_fuel(links_of, 9);
    let end = standing_after(start, s);
    let main = tapped_chain();
    let tap = tap_chain();
    assert(main.contains(main[0]) && main.contains(main[1]) && main.contains(main[2])
        && main.contains(main[3]) && main.contains(main[4]) && main.contains(main[5]));
    assert(tap.contains(tap[0]) && tap.contains(tap[1]) && tap.contains(tap[2]) && tap.contains(
        tap[3],
    ) && tap.contains(tap[4]) && tap.contains(tap[5]));
    assert(end.added =~= main.to_set() + tap.to_set());
}

/// The capture graph can be put together step by step, and leaves no element outside the pipeline.
/// What it links is one chain from the source to the sink, with the size filter right behind the
/// source; with a tap, the chain runs through the tee and its own queue, and the tap is a second
/// chain from the same tee, with a queue of its own.
pub proof fn law_capture_graph_is_sound(
    render_node: Seq<char>,
    geom: Geometry,
    frame_dir: Option<Seq<char>>,
)
    ensures
        sound(Standing::sink_only(), capture_steps(render_node, geom, frame_dir)),
        capture_standing(render_node, geom, frame_dir).made == capture_standing(
            render_node,
            geom,
            frame_dir,
        ).added,
        frame_dir is None ==> capture_standing(render_node, geom, frame_dir).links == links_of(
            direct_chain(),
        ) && capture_standing(render_node, geom, frame_dir).added == direct_chain().to_set(),
        frame_dir is Some ==> capture_standing(render_node, geom, frame_dir).links == links_of(
            tapped_chain(),
        ) + links_of(seq![Part::Tee] + tap_chain()) && capture_standing(
            render_node,
            geom,
            frame_dir,
        ).added == tapped_chain().to_set() + tap_chain().to_set(),
{
    lemma_front_is_sound(render_node, geom);
    let start = Standing::sink_only();
    let front = front_steps(render_node, geom);
    match frame_dir {
        None => {
            lemma_direct_is_sound();
            lemma_sound_in_turn(start, front, direct_steps());
        },
        Some(dir) => {
            lemma_tapped_is_sound(dir);
            lemma_sound_in_turn(start, front, tapped_steps(dir));
        },
    }
}

/// What stands once the capture graph was put together.
pub open spec fn capture_standing(
    render_node: Seq<char>,
    geom: Geometry,
    frame_dir: Option<Seq<char>>,
) -> Standing {
    standing_after(Standing::sink_only(), capture_steps(render_node, geom, frame_dir))
}

/// The zero-copy path is forced: the one element made for the size filter carries caps that are
/// bound to DMABuf memory and to the geometry, and the source is linked to nothing else.
pub proof fn law_capture_forces_zero_copy(
    render_node: Seq<char>,
    geom: Geometry,
    frame_dir: Option<Seq<char>>,
)
    ensures
        forall|i: int|
            0 <= i < capture_steps(render_node, geom, frame_dir).len() && (
            #[trigger] capture_steps(render_node, geom, frame_dir)[i] matches StepView::Make {
                part: Part::Size,
                recipe,
            }) ==> capture_steps(render_node, geom, frame_dir)[i]->Make_recipe == size_filter(geom),
        size_filter(geom).element.properties == seq![("caps"@, SettingView::Caps(geom.caps()))],
        geom.caps().features == seq!["memory:DMABuf"@],
        capture_standing(render_node, geom, frame_dir).links.contains((Part::Source, Part::Size)),
        forall|p: Part|
            capture_standing(render_node, geom, frame_dir).links.contains((Part::Source, p))
                ==> p == Part::Size,
{
    law_capture_graph_is_sound(render_node, geom, frame_dir);
    reveal_with_fuel(links_of, 9);
    assert(size_filter(geom).element.properties =~= seq![
        ("caps"@, SettingView::Caps(geom.caps())),
    ]);
}

/// The frame tap is part of the same pipeline as the stream, exactly when a directory was given,
/// and it writes there.
pub proof fn law_the_tap_is_in_the_same_pipeline(
    render_node: Seq<char>,
    geom: Geometry,
    frame_dir: Option<Seq<char>>,
)
    ensures
        frame_dir is Some <==> capture_standing(render_node, geom, frame_dir).added.contains(
            Part::TapFiles,
        ),
        frame_dir matches Some(dir) ==> capture_steps(render_node, geom, frame_dir).contains(
            StepView::Make { part: Part::TapFiles, recipe: tap_files(dir) },
        ),
{
    law_capture_graph_is_sound(render_node, geom, frame_dir);
    match frame_dir {
        None => {},
        Some(dir) => {
            assert(tap_chain()[5] == Part::TapFiles);
            assert(tap_chain().contains(Part::TapFiles));
            assert(capture_steps(render_node, geom, frame_dir)[13] == StepView::Make {
                part: Part::TapFiles,
                recipe: tap_files(dir),
            });
        },
    }
}

/// What sanitising does to a size and to a rate: within the range a size loses only what is above a
/// multiple of 8, and a rate nothing; outside, each becomes the bound that it is beyond.
pub proof fn law_sanitising_is_the_nearest_supported(g: Geometry)
    ensures
        g.width < 640 ==> g.sane().width == 640,
        g.width > 3840 ==> g.sane().width == 3840,
        640 <= g.width <= 3840 ==> g.sane().width % 8 == 0 && g.width - 8 < g.sane().width
            <= g.width,
        g.height < 480 ==> g.sane().height == 480,
        g.height > 2160 ==> g.sane().height == 2160,
        480 <= g.height <= 2160 ==> g.sane().height % 8 == 0 && g.height - 8 < g.sane().height
            <= g.height,
        g.framerate < 1 ==> g.sane().framerate == 1,
        g.framerate > 240 ==> g.sane().framerate == 240,
        1 <= g.framerate <= 240 ==> g.sane().framerate == g.framerate,
{
}

/// Caps hold the width, the height and the rate of their geometry, in 32 bits each, and are bound
/// to DMABuf memory.
pub proof fn law_caps_hold_the_geometry(g: Geometry)
    ensures
        g.caps().structure.name == "video/x-raw"@,
        g.caps().structure.fields == seq![
            ("width"@, ValueView::I32(signed(g.width))),
            ("height"@, ValueView::I32(signed(g.height))),
            ("framerate"@, ValueView::Fraction { numer: signed(g.framerate), denom: 1 }),
        ],
        g.caps().features == seq!["memory:DMABuf"@],
        forall|n: u32| n <= 0x7fff_ffff ==> #[trigger] signed(n) == n,
        forall|n: u32| n > 0x7fff_ffff ==> #[trigger] signed(n) == n - 0x1_0000_0000,
{
}

/// An element of that factory with these properties.
pub open spec fn made_of(
    factory: Seq<char>,
    name: Option<Seq<char>>,
    properties: Seq<(Seq<char>, SettingView)>,
    words: Option<Seq<char>>,
) -> RecipeView {
    RecipeView { element: ElementView { factory, name, properties }, words }
}

/// In every capture plan the source is on the render node that was asked for, the size filter holds
/// the geometry's caps, and the converter follows, each made once.
pub proof fn law_the_capture_front_is_made_of_what_was_asked_for(
    render_node: Seq<char>,
    geom: Geometry,
    frame_dir: Option<Seq<char>>,
)
    ensures
        makes_only(
            capture_steps(render_node, geom, frame_dir),
            Part::Source,
            made_of(
                "waylanddisplaysrc"@,
                None,
                seq![("render-node"@, SettingView::Text(render_node))],
                Some(
                    "creating waylanddisplaysrc — is layer-gst-wayland-display installed and on GST_PLUGIN_PATH?"@,
                ),
            ),
        ),
        makes_only(
            capture_steps(render_node, geom, frame_dir),
            Part::Size,
            made_of(
                "capsfilter"@,
                Some("size"@),
                seq![("caps"@, SettingView::Caps(geom.caps()))],
                Some("creating the size capsfilter"@),
            ),
        ),
        makes_only(
            capture_steps(render_node, geom, frame_dir),
            Part::Convert,
            made_of(
                "vapostproc"@,
                None,
                Seq::empty(),
                Some("creating vapostproc — is gstreamer-vaapi/va installed?"@),
            ),
        ),
        makes_none(capture_steps(render_node, geom, frame_dir), Part::Sink),
{
    let steps = capture_steps(render_node, geom, frame_dir);
    let source = made_of(
        "waylanddisplaysrc"@,
        None,
        seq![("render-node"@, SettingView::Text(render_node))],
        Some(
            "creating waylanddisplaysrc — is layer-gst-wayland-display installed and on GST_PLUGIN_PATH?"@,
        ),
    );
    let size = made_of(
        "capsfilter"@,
        Some("size"@),
        seq![("caps"@, SettingView::Caps(geom.caps()))],
        Some("creating the size capsfilter"@),
    );
    let convert = made_of(
        "vapostproc"@,
        None,
        Seq::empty(),
        Some("creating vapostproc — is gstreamer-vaapi/va installed?"@),
    );
    assert(steps[0] =~~= StepView::Make { part: Part::Source, recipe: source });
    assert(steps[1] =~~= StepView::Make { part: Part::Size, recipe: size });
    assert(steps[2] =~~= StepView::Make { part: Part::Convert, recipe: convert });
    assert(makes_at(steps, 0, Part::Source, source));
    assert(makes_at(steps, 1, Part::Size, size));
    assert(makes_at(steps, 2, Part::Convert, convert));
}

/// Two captures on different render nodes, or of geometries with different caps, or with different
/// directories for the tap, are different plans.
pub proof fn law_a_capture_plan_tells_what_it_was_made_for(
    node: Seq<char>,
    other_node: Seq<char>,
    geom: Geometry,
    other_geom: Geometry,
    dir: Option<Seq<char>>,
    other_dir: Option<Seq<char>>,
)
    requires
        capture_steps(node, geom, dir) == capture_steps(other_node, other_geom, other_dir),
    ensures
        node == other_node,
        geom.caps() == other_geom.caps(),
        dir == other_dir,
{
    let a = capture_steps(node, geom, dir);
    let b = capture_steps(other_node, other_geom, other_dir);
    assert(a[0]->recipe.element.properties[0].1 == SettingView::Text(node));
    assert(b[0]->recipe.element.properties[0].1 == SettingView::Text(other_node));
    assert(a[1]->recipe.element.properties[0].1 == SettingView::Caps(geom.caps()));
    assert(b[1]->recipe.element.properties[0].1 == SettingView::Caps(other_geom.caps()));
    assert(dir is Some <==> a.len() == 20);
    assert(other_dir is Some <==> b.len() == 20);
    if dir is Some {
        assert(a[5]->path == dir->0);
        assert(b[5]->path == other_dir->0);
    }
}

/// Without a directory no part of a tap is made, and the converter is linked to the sink.
pub proof fn law_a_capture_without_a_tap(render_node: Seq<char>, geom: Geometry)
    ensures
        ({
            let steps = capture_steps(render_node, geom, None);
            &&& steps.len() == 7
            &&& forall|i: int|
                0 <= i < steps.len() && (#[trigger] steps[i] is Make) ==> i < 3
            &&& steps[3] == (StepView::Add {
                parts: seq![Part::Source, Part::Size, Part::Convert],
                words: "adding the capture elements"@,
            })
            &&& steps[4] == (StepView::Link {
                parts: seq![Part::Source, Part::Size, Part::Convert],
                words: "linking the capture chain"@,
            })
            &&& steps[5] == (StepView::Add { parts: seq![Part::Sink], words: "adding the sink"@ })
            &&& steps[6] == (StepView::Link {
                parts: seq![Part::Convert, Part::Sink],
                words: "linking convert to the sink"@,
            })
        }),
{
}

/// With a directory the tap is made of these elements, each once: it takes one frame per second, as
/// a JPEG, and writes it into that directory, at most eight files at a time.
pub proof fn law_the_tap_writes_one_jpeg_per_second(
    render_node: Seq<char>,
    geom: Geometry,
    dir: Seq<char>,
)
    ensures
        ({
            let steps = capture_steps(render_node, geom, Some(dir));
            let one_per_second = CapsView {
                structure: StructureView {
                    name: "video/x-raw"@,
                    fields: seq![("framerate"@, ValueView::Fraction { numer: 1, denom: 1 })],
                },
                features: Seq::empty(),
            };
            let files = seq![
                ("location"@, SettingView::Text(dir + "/f%05d.jpg"@)),
                ("max-files"@, SettingView::U32(8)),
            ];
            let bare = |factory: Seq<char>| made_of(factory, None, Seq::empty(), None);
            &&& makes_only(
                steps,
                Part::Tee,
                made_of("tee"@, Some("tap"@), Seq::empty(), Some("creating the tee"@)),
            )
            &&& makes_only(steps, Part::SinkQueue, bare("queue"@))
            &&& makes_only(steps, Part::TapQueue, bare("queue"@))
            &&& makes_only(steps, Part::TapRate, bare("videorate"@))
            &&& makes_only(
                steps,
                Part::TapRateCaps,
                made_of(
                    "capsfilter"@,
                    None,
                    seq![("caps"@, SettingView::Caps(one_per_second))],
                    None,
                ),
            )
            &&& makes_only(steps, Part::TapConvert, bare("videoconvert"@))
            &&& makes_only(steps, Part::TapEncoder, bare("jpegenc"@))
            &&& makes_only(
                steps,
                Part::TapFiles,
                made_of("multifilesink"@, None, files, Some("creating multifilesink"@)),
            )
        }),
{
    let steps = capture_steps(render_node, geom, Some(dir));
    let one_per_second = CapsView {
        structure: StructureView {
            name: "video/x-raw"@,
            fields: seq![("framerate"@, ValueView::Fraction { numer: 1, denom: 1 })],
        },
        features: Seq::empty(),
    };
    let files = seq![
        ("location"@, SettingView::Text(dir + "/f%05d.jpg"@)),
        ("max-files"@, SettingView::U32(8)),
    ];
    let tee = made_of("tee"@, Some("tap"@), Seq::empty(), Some("creating the tee"@));
    let queue = made_of("queue"@, None, Seq::empty(), None);
    let rate = made_of("videorate"@, None, Seq::empty(), None);
    let rate_caps = made_of(
        "capsfilter"@,
        None,
        seq![("caps"@, SettingView::Caps(one_per_second))],
        None,
    );
    let convert = made_of("videoconvert"@, None, Seq::empty(), None);
    let encoder = made_of("jpegenc"@, None, Seq::empty(), None);
    let sink = made_of("multifilesink"@, None, files, Some("creating multifilesink"@));
    assert(steps[6] =~~= StepView::Make { part: Part::Tee, recipe: tee });
    assert(steps[7] =~~= StepView::Make { part: Part::SinkQueue, recipe: queue });
    assert(steps[8] =~~= StepView::Make { part: Part::TapQueue, recipe: queue });
    assert(steps[9] =~~= StepView::Make { part: Part::TapRate, recipe: rate });
    assert(steps[10] =~~= StepView::Make { part: Part::TapRateCaps, recipe: rate_caps });
    assert(steps[11] =~~= StepView::Make { part: Part::TapConvert, recipe: convert });
    assert(steps[12] =~~= StepView::Make { part: Part::TapEncoder, recipe: encoder });
    assert(steps[13] =~~= StepView::Make { part: Part::TapFiles, recipe: sink });
    assert(makes_at(steps, 6, Part::Tee, tee));
    assert(makes_at(steps, 7, Part::SinkQueue, queue));
    assert(makes_at(steps, 8, Part::TapQueue, queue));
    assert(makes_at(steps, 9, Part::TapRate, rate));
    assert(makes_at(steps, 10, Part::TapRateCaps, rate_caps));
    assert(makes_at(steps, 11, Part::TapConvert, convert));
    assert(makes_at(steps, 12, Part::TapEncoder, encoder));
    assert(makes_at(steps, 13, Part::TapFiles, sink));
}

/// With a directory the steps that make nothing come in this order, with these words.
pub proof fn law_a_capture_with_a_tap(render_node: Seq<char>, geom: Geometry, dir: Seq<char>)
    ensures
        ({
            let steps = capture_steps(render_node, geom, Some(dir));
            &&& steps.len() == 20
            &&& steps[3] == (StepView::Add {
                parts: seq![Part::Source, Part::Size, Part::Convert],
                words: "adding the capture elements"@,
            })
            &&& steps[4] == (StepView::Link {
                parts: seq![Part::Source, Part::Size, Part::Convert],
                words: "linking the capture chain"@,
            })
            &&& steps[5] == (StepView::CreateDir {
                path: dir,
                words: "creating the frame-tap directory "@ + dir,
            })
            &&& steps[14] == (StepView::Add {
                parts: seq![
                    Part::Tee,
                    Part::SinkQueue,
                    Part::Sink,
                    Part::TapQueue,
                    Part::TapRate,
                    Part::TapRateCaps,
                    Part::TapConvert,
                    Part::TapEncoder,
                    Part::TapFiles,
                ],
                words: "adding the tee branches"@,
            })
            &&& steps[15] == (StepView::Link {
                parts: seq![Part::Convert, Part::Tee],
                words: "linking convert to the tee"@,
            })
            &&& steps[16] == (StepView::Link {
                parts: seq![Part::SinkQueue, Part::Sink],
                words: "linking the encoder branch"@,
            })
            &&& steps[17] == (StepView::Link {
                parts: seq![
                    Part::TapQueue,
                    Part::TapRate,
                    Part::TapRateCaps,
                    Part::TapConvert,
                    Part::TapEncoder,
                    Part::TapFiles,
                ],
                words: "linking the frame tap"@,
            })
            &&& steps[18] == (StepView::Link {
                parts: seq![Part::Tee, Part::SinkQueue],
                words: "linking the tee to the encoder branch"@,
            })
            &&& steps[19] == (StepView::Link {
                parts: seq![Part::Tee, Part::TapQueue],
                words: "linking the tee to the frame tap"@,
            })
        }),
{
}

}
