//! The Wayland display source.
//!
//! The element is made from the registry by its factory's name, never linked in, so that this
//! program and the element can move separately.

use vstd::prelude::*;

use crate::graph::{
    Element, ElementView, Recipe, RecipeView, Setting, SettingView, Structure, StructureView, Value,
    ValueView,
};
use crate::text::{opt_text, same_text};

verus! {

/// The name of the source's factory.
pub const FACTORY: &'static str = "waylanddisplaysrc";

/// How many seconds to wait for the compositor to publish the name of its socket.
///
/// A timeout rather than a blocking wait: the message is posted on a best-effort basis, and a
/// missing one is not fatal to the element.
pub const WAYLAND_DISPLAY_TIMEOUT: u64 = 10;

/// Why there can be no display.
#[derive(Debug, Clone, Copy, PartialEq, Eq, Structural)]
pub enum DisplayError {
    EmptyRenderNode,
}

impl DisplayError {
    /// The reason in words.
    pub fn message(&self) -> (r: String)
        ensures
            r@
                == "render_node is empty — cstream requires a real DRM render node (e.g. /dev/dri/renderD128); there is no software fallback that can host a nested compositor"@,
    {
        "render_node is empty — cstream requires a real DRM render node (e.g. /dev/dri/renderD128); there is no software fallback that can host a nested compositor".to_owned()
    }
}

/// The source for a render node.
pub open spec fn source_recipe(render_node: Seq<char>) -> RecipeView {
    ElementView::plain(FACTORY@).with(
        "render-node"@,
        SettingView::Text(render_node),
    ).or_say(
        "creating waylanddisplaysrc — is layer-gst-wayland-display installed and on GST_PLUGIN_PATH?"@,
    )
}

/// How the source for a render node is made.
///
/// `render_node` is always a real DRM node: a software node cannot host a nested compositor, so an
/// empty one is a configuration error and not a degraded mode. The element's input devices are
/// left unset: input is injected as events, and no device is ever opened.
pub fn make_source(render_node: &str) -> (r: Result<Recipe, DisplayError>)
    ensures
        r is Err <==> render_node@.len() == 0,
        r matches Ok(recipe) ==> recipe@ == source_recipe(render_node@),
        r matches Err(e) ==> e == DisplayError::EmptyRenderNode,
{
    if render_node.is_empty() {
        return Err(DisplayError::EmptyRenderNode);
    }
    let source = Element::plain(FACTORY).with("render-node", Setting::Text(render_node.to_owned()));
    Ok(
        source.or_say(
            "creating waylanddisplaysrc — is layer-gst-wayland-display installed and on GST_PLUGIN_PATH?",
        ),
    )
}

/// A message on the pipeline's bus, as far as it is read here.
#[derive(Debug, PartialEq, Eq)]
pub struct Message {
    pub structure: Option<Structure>,
}

/// The display's name in a message's structure: only a text, and only in the one message that may
/// be trusted for it.
pub open spec fn display_name(structure: StructureView) -> Option<Seq<char>> {
    if structure.name != "wayland.src"@ {
        None
    } else {
        match structure.get("WAYLAND_DISPLAY"@) {
            Some(ValueView::Text(name)) => Some(name),
            _ => None,
        }
    }
}

/// The compositor's display name, if this is the message that carries it.
///
/// `None` for every unrelated message, so that it can be asked of each message on a bus.
pub fn wayland_display_from_message(msg: &Message) -> (r: Option<String>)
    ensures
        opt_text(r) == match msg.structure {
            None => None,
            Some(structure) => display_name(structure@),
        },
{
    match &msg.structure {
        None => None,
        Some(structure) => {
            if !same_text(structure.name.as_str(), "wayland.src") {
                return None;
            }
            match structure.get("WAYLAND_DISPLAY") {
                Some(Value::Text(name)) => Some(name.clone()),
                _ => None,
            }
        },
    }
}

/// One step of preparing a directory, with the words that name it when it fails.
#[derive(Debug, PartialEq, Eq)]
pub enum DirStep {
    /// Create the directory and its parents.
    Create { words: String },
    /// Give the directory these permission bits.
    SetMode { mode: u32, words: String },
}

pub enum DirStepView {
    Create { words: Seq<char> },
    SetMode { mode: u32, words: Seq<char> },
}

impl View for DirStep {
    type V = DirStepView;

    open spec fn view(&self) -> DirStepView {
        match self {
            DirStep::Create { words } => DirStepView::Create { words: words@ },
            DirStep::SetMode { mode, words } => DirStepView::SetMode { mode: *mode, words: words@ },
        }
    }
}

/// What prepares the runtime directory `dir`, given whether it is a directory already.
pub open spec fn runtime_dir_steps(dir: Seq<char>, is_dir: bool) -> Seq<DirStepView> {
    if is_dir {
        Seq::empty()
    } else {
        seq![
            DirStepView::Create {
                words: "creating XDG_RUNTIME_DIR "@ + dir + " for the Wayland socket"@,
            },
            DirStepView::SetMode { mode: 0o700, words: "tightening "@ + dir + " to 0700"@ },
        ]
    }
}

/// Prepares the runtime directory, so that the compositor can create its socket in it.
///
/// Only a directory created here gets its permissions set: on one that is owned by somebody else
/// that would fail, and end the streamer before it did any work.
pub fn prepare_runtime_dir(dir: &str, is_dir: bool) -> (r: Vec<DirStep>)
    ensures
        r@.map_values(|s: DirStep| s@) == runtime_dir_steps(dir@, is_dir),
{
    let mut r: Vec<DirStep> = Vec::new();
    if !is_dir {
        let mut creating = "creating XDG_RUNTIME_DIR ".to_owned();
        creating.append(dir);
        creating.append(" for the Wayland socket");
        let mut tightening = "tightening ".to_owned();
        tightening.append(dir);
        tightening.append(" to 0700");
        r.push(DirStep::Create { words: creating });
        r.push(DirStep::SetMode { mode: 0o700, words: tightening });
    }
    assert(r@.map_values(|s: DirStep| s@) =~= runtime_dir_steps(dir@, is_dir));
    r
}

/// A directory that exists is left exactly as it was found; one that is missing is created and made
/// private, in that order.
pub proof fn law_only_a_created_directory_is_tightened(dir: Seq<char>, is_dir: bool)
    ensures
        is_dir ==> runtime_dir_steps(dir, is_dir).len() == 0,
        !is_dir ==> {
            let steps = runtime_dir_steps(dir, is_dir);
            &&& steps.len() == 2
            &&& steps[0] is Create
            &&& steps[1] is SetMode
            &&& steps[1]->mode == 0o700
        },
{
}

/// The source is put on the render node that was asked for, and has no other property: sources for
/// two nodes differ in that one.
pub proof fn law_the_source_is_on_the_render_node(render_node: Seq<char>, other: Seq<char>)
    ensures
        source_recipe(render_node).element.factory == "waylanddisplaysrc"@,
        source_recipe(render_node).element.name is None,
        source_recipe(render_node).element.properties == seq![
            ("render-node"@, SettingView::Text(render_node)),
        ],
        source_recipe(render_node).words == Some(
            "creating waylanddisplaysrc — is layer-gst-wayland-display installed and on GST_PLUGIN_PATH?"@,
        ),
        source_recipe(render_node) == source_recipe(other) ==> render_node == other,
{
    let a = source_recipe(render_node).element.properties;
    let b = source_recipe(other).element.properties;
    assert(a =~= seq![("render-node"@, SettingView::Text(render_node))]);
    assert(a[0].1 == SettingView::Text(render_node));
    assert(b[0].1 == SettingView::Text(other));
}

/// A display's name is read from the one message that may be trusted for it, and from its text
/// field of that name; every other message gives none.
pub proof fn law_the_display_name_comes_from_one_message(s: StructureView, name: Seq<char>)
    ensures
        display_name(s) == Some(name) <==> s.name == "wayland.src"@ && s.get("WAYLAND_DISPLAY"@)
            == Some(ValueView::Text(name)),
{
}

/// The steps for a missing directory name it when they fail.
pub proof fn law_a_directory_is_named_when_it_cannot_be_prepared(dir: Seq<char>)
    ensures
        runtime_dir_steps(dir, false)[0] == (DirStepView::Create {
            words: "creating XDG_RUNTIME_DIR "@ + dir + " for the Wayland socket"@,
        }),
        runtime_dir_steps(dir, false)[1] == (DirStepView::SetMode {
            mode: 0o700,
            words: "tightening "@ + dir + " to 0700"@,
        }),
{
}

/// A step stands for what it does.
pub proof fn law_a_directory_step_stands_for_itself(words: String, mode: u32)
    ensures
        (DirStep::Create { words })@ == (DirStepView::Create { words: words@ }),
        (DirStep::SetMode { mode, words })@ == (DirStepView::SetMode { mode, words: words@ }),
{
}

/// The wait for the display's name has an end, ten seconds off.
pub proof fn law_the_wait_for_the_display_ends()
    ensures
        WAYLAND_DISPLAY_TIMEOUT == 10,
{
}

}
