//! Media elements, their settings and the order in which a graph is put together.
//!
//! A graph is described here as data: which elements are made, with which settings, and in
//! which order they are added and linked. Carrying the steps out is left to whoever holds the
//! media framework; this module says what comes next and when to stop.

use vstd::prelude::*;

use crate::text::{opt_text, same_text, texts};

verus! {

/// A typed value of a structure's field.
///
/// The type is part of what a reader of the structure relies on: a field is never read as
/// another type than the one that it was written with.
#[derive(Debug, PartialEq, Eq)]
pub enum Value {
    Text(String),
    Bool(bool),
    U32(u32),
    I32(i32),
    /// A 64-bit IEEE 754 number, given by its bits.
    Double(u64),
    Fraction { numer: i32, denom: i32 },
}

pub enum ValueView {
    Text(Seq<char>),
    Bool(bool),
    U32(u32),
    I32(i32),
    Double(u64),
    Fraction { numer: i32, denom: i32 },
}

impl View for Value {
    type V = ValueView;

    open spec fn view(&self) -> ValueView {
        match self {
            Value::Text(s) => ValueView::Text(s@),
            Value::Bool(b) => ValueView::Bool(*b),
            Value::U32(n) => ValueView::U32(*n),
            Value::I32(n) => ValueView::I32(*n),
            Value::Double(bits) => ValueView::Double(*bits),
            Value::Fraction { numer, denom } => ValueView::Fraction {
                numer: *numer,
                denom: *denom,
            },
        }
    }
}

#[derive(Debug, PartialEq, Eq)]
pub struct Field {
    pub name: String,
    pub value: Value,
}

impl View for Field {
    type V = (Seq<char>, ValueView);

    open spec fn view(&self) -> (Seq<char>, ValueView) {
        (self.name@, self.value@)
    }
}

/// A named list of typed fields.
#[derive(Debug, PartialEq, Eq)]
pub struct Structure {
    pub name: String,
    pub fields: Vec<Field>,
}

#[verifier::ext_equal]
pub struct StructureView {
    pub name: Seq<char>,
    pub fields: Seq<(Seq<char>, ValueView)>,
}

impl View for Structure {
    type V = StructureView;

    open spec fn view(&self) -> StructureView {
        StructureView { name: self.name@, fields: self.fields@.map_values(|f: Field| f@) }
    }
}

impl StructureView {
    /// The value of the first field of that name.
    pub open spec fn get(self, name: Seq<char>) -> Option<ValueView> {
        first_field(self.fields, name)
    }
}

pub open spec fn first_field(fields: Seq<(Seq<char>, ValueView)>, name: Seq<char>) -> Option<
    ValueView,
>
    decreases fields.len(),
{
    if fields.len() == 0 {
        None
    } else if fields[0].0 == name {
        Some(fields[0].1)
    } else {
        first_field(fields.skip(1), name)
    }
}

impl Structure {
    /// A structure of that name without fields.
    pub fn new(name: &str) -> (r: Structure)
        ensures
            r@ == (StructureView { name: name@, fields: Seq::empty() }),
    {
        let r = Structure { name: name.to_owned(), fields: Vec::new() };
        assert(r@.fields =~= Seq::empty());
        r
    }

    /// This structure with one more field.
    pub fn with(self, name: &str, value: Value) -> (r: Structure)
        ensures
            r@ == (StructureView { name: self@.name, fields: self@.fields.push((name@, value@)) }),
    {
        let ghost before = self@;
        let mut fields = self.fields;
        fields.push(Field { name: name.to_owned(), value });
        let r = Structure { name: self.name, fields };
        assert(r@.fields =~= before.fields.push((name@, value@)));
        r
    }

    /// The value of the first field of that name.
    pub fn get(&self, name: &str) -> (r: Option<&Value>)
        ensures
            (match r {
                Some(v) => Some(v@),
                None => None,
            }) == self@.get(name@),
    {
        let mut i: usize = 0;
        let ghost fields = self@.fields;
        assert(fields.skip(0) == fields);
        while i < self.fields.len()
            invariant
                i <= self.fields.len(),
                fields == self.fields@.map_values(|f: Field| f@),
                first_field(fields, name@) == first_field(fields.skip(i as int), name@),
            decreases self.fields.len() - i,
        {
            assert(fields.skip(i as int)[0] == self.fields@[i as int]@);
            if same_text(self.fields[i].name.as_str(), name) {
                return Some(&self.fields[i].value);
            }
            assert(fields.skip(i as int).skip(1) == fields.skip(i + 1));
            i = i + 1;
        }
        None
    }
}

/// What a link may carry: a structure, and the memory features that it is bound to.
#[derive(Debug, PartialEq, Eq)]
pub struct Caps {
    pub structure: Structure,
    pub features: Vec<String>,
}

#[verifier::ext_equal]
pub struct CapsView {
    pub structure: StructureView,
    pub features: Seq<Seq<char>>,
}

impl View for Caps {
    type V = CapsView;

    open spec fn view(&self) -> CapsView {
        CapsView { structure: self.structure@, features: texts(self.features@) }
    }
}

impl Caps {
    /// Caps without any feature.
    pub fn plain(structure: Structure) -> (r: Caps)
        ensures
            r@ == (CapsView { structure: structure@, features: Seq::empty() }),
    {
        let r = Caps { structure, features: Vec::new() };
        assert(r@.features =~= Seq::empty());
        r
    }

    /// Caps with one feature.
    pub fn with_feature(structure: Structure, feature: &str) -> (r: Caps)
        ensures
            r@ == (CapsView { structure: structure@, features: seq![feature@] }),
    {
        let r = Caps { structure, features: vec![feature.to_owned()] };
        assert(r@.features =~= seq![feature@]);
        r
    }
}

/// The value of an element's property.
#[derive(Debug, PartialEq, Eq)]
pub enum Setting {
    Text(String),
    /// Text that the property itself parses, as for an enumeration.
    Parsed(String),
    Bool(bool),
    U32(u32),
    Caps(Caps),
    Structure(Structure),
}

#[verifier::ext_equal]
pub enum SettingView {
    Text(Seq<char>),
    Parsed(Seq<char>),
    Bool(bool),
    U32(u32),
    Caps(CapsView),
    Structure(StructureView),
}

impl View for Setting {
    type V = SettingView;

    open spec fn view(&self) -> SettingView {
        match self {
            Setting::Text(s) => SettingView::Text(s@),
            Setting::Parsed(s) => SettingView::Parsed(s@),
            Setting::Bool(b) => SettingView::Bool(*b),
            Setting::U32(n) => SettingView::U32(*n),
            Setting::Caps(c) => SettingView::Caps(c@),
            Setting::Structure(s) => SettingView::Structure(s@),
        }
    }
}

#[derive(Debug, PartialEq, Eq)]
pub struct Property {
    pub name: String,
    pub value: Setting,
}

impl View for Property {
    type V = (Seq<char>, SettingView);

    open spec fn view(&self) -> (Seq<char>, SettingView) {
        (self.name@, self.value@)
    }
}

/// The names and values of a list of properties.
pub open spec fn properties(list: Seq<Property>) -> Seq<(Seq<char>, SettingView)> {
    list.map_values(|p: Property| p@)
}

/// An element to be made by the factory of that name.
#[derive(Debug, PartialEq, Eq)]
pub struct Element {
    pub factory: String,
    pub name: Option<String>,
    pub properties: Vec<Property>,
}

#[verifier::ext_equal]
pub struct ElementView {
    pub factory: Seq<char>,
    pub name: Option<Seq<char>>,
    pub properties: Seq<(Seq<char>, SettingView)>,
}

impl View for Element {
    type V = ElementView;

    open spec fn view(&self) -> ElementView {
        ElementView {
            factory: self.factory@,
            name: opt_text(self.name),
            properties: properties(self.properties@),
        }
    }
}

impl ElementView {
    /// An element of that factory, unnamed and with no property set.
    pub open spec fn plain(factory: Seq<char>) -> ElementView {
        ElementView { factory, name: None, properties: Seq::empty() }
    }

    pub open spec fn named(self, name: Seq<char>) -> ElementView {
        ElementView { name: Some(name), ..self }
    }

    pub open spec fn with(self, name: Seq<char>, value: SettingView) -> ElementView {
        ElementView { properties: self.properties.push((name, value)), ..self }
    }
}

impl Element {
    /// An element of that factory, unnamed and with no property set.
    pub fn plain(factory: &str) -> (r: Element)
        ensures
            r@ == ElementView::plain(factory@),
    {
        let r = Element { factory: factory.to_owned(), name: None, properties: Vec::new() };
        assert(r@.properties =~= Seq::empty());
        r
    }

    pub fn named(self, name: &str) -> (r: Element)
        ensures
            r@ == self@.named(name@),
    {
        Element { factory: self.factory, name: Some(name.to_owned()), properties: self.properties }
    }

    pub fn with(self, name: &str, value: Setting) -> (r: Element)
        ensures
            r@ == self@.with(name@, value@),
    {
        let ghost before = self@;
        let mut list = self.properties;
        list.push(Property { name: name.to_owned(), value });
        let r = Element { factory: self.factory, name: self.name, properties: list };
        assert(r@.properties =~= before.properties.push((name@, value@)));
        r
    }
}

/// The places that an element can take in the streamer's graph.
#[derive(Debug, Clone, Copy, PartialEq, Eq, Structural)]
pub enum Part {
    /// The sink that delivers the stream.
    Sink,
    Source,
    /// The caps filter that a resize rewrites.
    Size,
    Convert,
    Tee,
    SinkQueue,
    TapQueue,
    TapRate,
    TapRateCaps,
    TapConvert,
    TapEncoder,
    TapFiles,
    AudioSource,
    AudioQueue,
    AudioConvert,
    AudioResample,
}

/// How an element is made, with the words that name the attempt when it fails.
#[derive(Debug, PartialEq, Eq)]
pub struct Recipe {
    pub element: Element,
    pub words: Option<String>,
}

#[verifier::ext_equal]
pub struct RecipeView {
    pub element: ElementView,
    pub words: Option<Seq<char>>,
}

impl View for Recipe {
    type V = RecipeView;

    open spec fn view(&self) -> RecipeView {
        RecipeView { element: self.element@, words: opt_text(self.words) }
    }
}

impl ElementView {
    pub open spec fn or_say(self, words: Seq<char>) -> RecipeView {
        RecipeView { element: self, words: Some(words) }
    }

    pub open spec fn recipe(self) -> RecipeView {
        RecipeView { element: self, words: None }
    }
}

impl Element {
    /// Make this element, and on failure say these words.
    pub fn or_say(self, words: &str) -> (r: Recipe)
        ensures
            r@ == self@.or_say(words@),
    {
        Recipe { element: self, words: Some(words.to_owned()) }
    }

    /// Make this element; a failure has no words of its own.
    pub fn recipe(self) -> (r: Recipe)
        ensures
            r@ == self@.recipe(),
    {
        Recipe { element: self, words: None }
    }
}

/// One step of putting a graph together, with the words that name it when it fails.
#[derive(Debug, PartialEq, Eq)]
pub enum Step {
    /// Create a directory and its parents.
    CreateDir { path: String, words: String },
    /// Make an element for a place.
    Make { part: Part, recipe: Recipe },
    /// Add the elements to the pipeline.
    Add { parts: Vec<Part>, words: String },
    /// Link each element to the next.
    Link { parts: Vec<Part>, words: String },
}

#[verifier::ext_equal]
pub enum StepView {
    CreateDir { path: Seq<char>, words: Seq<char> },
    Make { part: Part, recipe: RecipeView },
    Add { parts: Seq<Part>, words: Seq<char> },
    Link { parts: Seq<Part>, words: Seq<char> },
}

impl View for Step {
    type V = StepView;

    open spec fn view(&self) -> StepView {
        match self {
            Step::CreateDir { path, words } => StepView::CreateDir { path: path@, words: words@ },
            Step::Make { part, recipe } => StepView::Make { part: *part, recipe: recipe@ },
            Step::Add { parts, words } => StepView::Add { parts: parts@, words: words@ },
            Step::Link { parts, words } => StepView::Link { parts: parts@, words: words@ },
        }
    }
}

impl StepView {
    /// The words that name this step when it fails.
    pub open spec fn failure(self) -> Option<Seq<char>> {
        match self {
            StepView::CreateDir { words, .. } => Some(words),
            StepView::Make { recipe, .. } => recipe.words,
            StepView::Add { words, .. } => Some(words),
            StepView::Link { words, .. } => Some(words),
        }
    }
}

impl Step {
    /// The words that name this step when it fails.
    pub fn failure(&self) -> (r: Option<&String>)
        ensures
            (match r {
                Some(words) => Some(words@),
                None => None,
            }) == self@.failure(),
    {
        match self {
            Step::CreateDir { words, .. } => Some(words),
            Step::Make { recipe, .. } => recipe.words.as_ref(),
            Step::Add { words, .. } => Some(words),
            Step::Link { words, .. } => Some(words),
        }
    }
}

/// The steps that put a graph together, in order.
#[derive(Debug, PartialEq, Eq)]
pub struct Plan {
    pub steps: Vec<Step>,
}

impl View for Plan {
    type V = Seq<StepView>;

    open spec fn view(&self) -> Seq<StepView> {
        self.steps@.map_values(|s: Step| s@)
    }
}

impl Plan {
    pub fn new() -> (r: Plan)
        ensures
            r@ == Seq::<StepView>::empty(),
    {
        let r = Plan { steps: Vec::new() };
        assert(r@ =~= Seq::empty());
        r
    }

    fn push(&mut self, step: Step)
        ensures
            final(self)@ == old(self)@.push(step@),
    {
        self.steps.push(step);
        assert(self@ =~= old(self)@.push(step@));
    }

    pub fn create_dir(&mut self, path: &str, words: String)
        ensures
            final(self)@ == old(self)@.push(StepView::CreateDir { path: path@, words: words@ }),
    {
        self.push(Step::CreateDir { path: path.to_owned(), words });
    }

    pub fn make(&mut self, part: Part, recipe: Recipe)
        ensures
            final(self)@ == old(self)@.push(StepView::Make { part, recipe: recipe@ }),
    {
        self.push(Step::Make { part, recipe });
    }

    pub fn add(&mut self, parts: Vec<Part>, words: &str)
        ensures
            final(self)@ == old(self)@.push(StepView::Add { parts: parts@, words: words@ }),
    {
        self.push(Step::Add { parts, words: words.to_owned() });
    }

    pub fn link(&mut self, parts: Vec<Part>, words: &str)
        ensures
            final(self)@ == old(self)@.push(StepView::Link { parts: parts@, words: words@ }),
    {
        self.push(Step::Link { parts, words: words.to_owned() });
    }
}

/// Where carrying out a plan stands.
pub enum Progress {
    /// The step at this position comes next.
    At(int),
    /// All steps were carried out.
    Complete,
    /// The step at this position failed, and nothing was done after it.
    Failed(int),
}

/// A plan that is being carried out, step by step.
#[derive(Debug)]
pub struct GraphRun {
    plan: Plan,
    done: usize,
    failed: bool,
}

impl GraphRun {
    #[verifier::type_invariant]
    closed spec fn in_the_plan(self) -> bool {
        &&& self.done <= self.plan.steps.len()
        &&& self.failed ==> self.done < self.plan.steps.len()
    }

    pub closed spec fn steps(&self) -> Seq<StepView> {
        self.plan@
    }

    pub closed spec fn progress(&self) -> Progress {
        if self.failed {
            Progress::Failed(self.done as int)
        } else if self.done == self.plan.steps.len() {
            Progress::Complete
        } else {
            Progress::At(self.done as int)
        }
    }

    pub fn new(plan: Plan) -> (r: GraphRun)
        ensures
            r.steps() == plan@,
            r.progress() == progress_after(plan@.len(), Seq::empty()),
    {
        GraphRun { plan, done: 0, failed: false }
    }

    /// The step to carry out next; none when the plan is complete or has failed.
    pub fn next(&self) -> (r: Option<&Step>)
        ensures
            match self.progress() {
                Progress::At(i) => r matches Some(step) && 0 <= i < self.steps().len() && step@
                    == self.steps()[i],
                _ => r is None,
            },
    {
        proof {
            use_type_invariant(self);
        }
        if self.failed || self.done == self.plan.steps.len() {
            None
        } else {
            Some(&self.plan.steps[self.done])
        }
    }

    /// Takes whether the step that came next succeeded.
    pub fn on_result(&mut self, ok: bool)
        ensures
            final(self).steps() == old(self).steps(),
            final(self).progress() == progress_next(
                old(self).steps().len(),
                old(self).progress(),
                ok,
            ),
    {
        proof {
            use_type_invariant(&*self);
        }
        if !self.failed && self.done < self.plan.steps.len() {
            if ok {
                self.done = self.done + 1;
            } else {
                self.failed = true;
            }
        }
    }

    /// Whether all steps were carried out.
    pub fn is_complete(&self) -> (r: bool)
        ensures
            r == (self.progress() is Complete),
    {
        !self.failed && self.done == self.plan.steps.len()
    }

    /// The step that failed.
    pub fn failed_step(&self) -> (r: Option<&Step>)
        ensures
            match self.progress() {
                Progress::Failed(i) => r matches Some(step) && 0 <= i < self.steps().len()
                    && step@ == self.steps()[i],
                _ => r is None,
            },
    {
        proof {
            use_type_invariant(self);
        }
        if self.failed {
            Some(&self.plan.steps[self.done])
        } else {
            None
        }
    }
}

/// The progress of a plan of `len` steps after one more result.
pub open spec fn progress_next(len: nat, progress: Progress, ok: bool) -> Progress {
    match progress {
        Progress::At(i) => if !ok {
            Progress::Failed(i)
        } else if i + 1 == len {
            Progress::Complete
        } else {
            Progress::At(i + 1)
        },
        other => other,
    }
}

/// The progress of a plan of `len` steps after these results.
pub open spec fn progress_after(len: nat, results: Seq<bool>) -> Progress
    decreases results.len(),
{
    if results.len() == 0 {
        if len == 0 {
            Progress::Complete
        } else {
            Progress::At(0)
        }
    } else {
        progress_next(len, progress_after(len, results.drop_last()), results.last())
    }
}

/// A plan is carried out in order and stops at the first step that fails: it is complete exactly
/// when every step was carried out with success, and what is reported after the end changes nothing.
pub proof fn law_a_run_stops_at_the_first_failure(len: nat, results: Seq<bool>)
    ensures
        match progress_after(len, results) {
            Progress::At(i) => i == results.len() && i < len && forall|k: int|
                0 <= k < i ==> #[trigger] results[k],
            Progress::Complete => results.len() >= len && forall|k: int|
                0 <= k < len ==> #[trigger] results[k],
            Progress::Failed(i) => 0 <= i < results.len() && i < len && !results[i] && forall|
                k: int,
            |
                0 <= k < i ==> #[trigger] results[k],
        },
    decreases results.len(),
{
    if results.len() > 0 {
        let before = results.drop_last();
        law_a_run_stops_at_the_first_failure(len, before);
        assert(forall|k: int| 0 <= k < before.len() ==> before[k] == #[trigger] results[k]);
    }
}

/// What stands after some steps: the elements made, those in the pipeline, and the links.
#[verifier::ext_equal]
pub struct Standing {
    pub made: Set<Part>,
    pub added: Set<Part>,
    pub links: Set<(Part, Part)>,
}

impl Standing {
    /// Nothing but the sink, which is made before the graph.
    pub open spec fn sink_only() -> Standing {
        Standing { made: set![Part::Sink], added: Set::empty(), links: Set::empty() }
    }

    /// The step can be carried out: nothing is made twice, only what was made is added, once, and
    /// only what is in the pipeline is linked.
    pub open spec fn allows(self, step: StepView) -> bool {
        match step {
            StepView::CreateDir { .. } => true,
            StepView::Make { part, .. } => !self.made.contains(part),
            StepView::Add { parts, .. } => {
                &&& parts.no_duplicates()
                &&& forall|i: int|
                    0 <= i < parts.len() ==> self.made.contains(#[trigger] parts[i])
                        && !self.added.contains(parts[i])
            },
            StepView::Link { parts, .. } => {
                &&& parts.len() >= 2
                &&& forall|i: int| 0 <= i < parts.len() ==> self.added.contains(#[trigger] parts[i])
            },
        }
    }

    pub open spec fn plus(self, step: StepView) -> Standing {
        match step {
            StepView::CreateDir { .. } => self,
            StepView::Make { part, .. } => Standing { made: self.made.insert(part), ..self },
            StepView::Add { parts, .. } => Standing { added: self.added + parts.to_set(), ..self },
            StepView::Link { parts, .. } => Standing { links: self.links + links_of(parts), ..self },
        }
    }
}

/// The links of a chain of elements: each to the next.
pub open spec fn links_of(parts: Seq<Part>) -> Set<(Part, Part)>
    decreases parts.len(),
{
    if parts.len() < 2 {
        Set::empty()
    } else {
        links_of(parts.skip(1)).insert((parts[0], parts[1]))
    }
}

/// What stands once the steps were carried out.
pub open spec fn standing_after(start: Standing, steps: Seq<StepView>) -> Standing
    decreases steps.len(),
{
    if steps.len() == 0 {
        start
    } else {
        standing_after(start, steps.drop_last()).plus(steps.last())
    }
}

/// Each step can be carried out when its turn comes.
pub open spec fn sound(start: Standing, steps: Seq<StepView>) -> bool
    decreases steps.len(),
{
    steps.len() > 0 ==> {
        &&& sound(start, steps.drop_last())
        &&& standing_after(start, steps.drop_last()).allows(steps.last())
    }
}

/// One more step that can be carried out keeps a plan sound.
pub proof fn lemma_sound_step(start: Standing, steps: Seq<StepView>, i: int)
    requires
        0 <= i < steps.len(),
        sound(start, steps.take(i)),
        standing_after(start, steps.take(i)).allows(steps[i]),
    ensures
        sound(start, steps.take(i + 1)),
        standing_after(start, steps.take(i + 1)) == standing_after(start, steps.take(i)).plus(
            steps[i],
        ),
{
    assert(steps.take(i + 1).drop_last() == steps.take(i));
}

/// Soundness of one plan after another.
pub proof fn lemma_sound_in_turn(start: Standing, first: Seq<StepView>, second: Seq<StepView>)
    requires
        sound(start, first),
        sound(standing_after(start, first), second),
    ensures
        sound(start, first + second),
        standing_after(start, first + second) == standing_after(
            standing_after(start, first),
            second,
        ),
    decreases second.len(),
{
    let all = first + second;
    if second.len() == 0 {
        assert(all == first);
    } else {
        lemma_sound_in_turn(start, first, second.drop_last());
        assert(all.drop_last() == first + second.drop_last());
        assert(all.last() == second.last());
    }
}

/// A field is found by its name: the first of that name, and none where there is none.
pub proof fn law_a_field_is_found_by_its_name(s: StructureView, name: Seq<char>)
    ensures
        match s.get(name) {
            Some(value) => exists|i: int|
                0 <= i < s.fields.len() && #[trigger] s.fields[i] == (name, value) && forall|j: int|
                    0 <= j < i ==> (#[trigger] s.fields[j]).0 != name,
            None => forall|j: int| 0 <= j < s.fields.len() ==> (#[trigger] s.fields[j]).0 != name,
        },
    decreases s.fields.len(),
{
    if s.fields.len() > 0 && s.fields[0].0 != name {
        let rest = StructureView { name: s.name, fields: s.fields.skip(1) };
        law_a_field_is_found_by_its_name(rest, name);
        match s.get(name) {
            Some(value) => {
                let i = choose|i: int|
                    0 <= i < rest.fields.len() && #[trigger] rest.fields[i] == (name, value)
                        && forall|j: int| 0 <= j < i ==> (#[trigger] rest.fields[j]).0 != name;
                assert(s.fields[i + 1] == (name, value));
                assert forall|j: int| 0 <= j < i + 1 implies (#[trigger] s.fields[j]).0 != name by {
                    if j > 0 {
                        assert(rest.fields[j - 1] == s.fields[j]);
                    }
                }
            },
            None => {
                assert forall|j: int| 0 <= j < s.fields.len() implies (#[trigger] s.fields[j]).0
                    != name by {
                    if j > 0 {
                        assert(rest.fields[j - 1] == s.fields[j]);
                    }
                }
            },
        }
    } else if s.fields.len() > 0 {
        assert(s.fields[0] == (name, s.fields[0].1));
    }
}

/// A value stands for itself, at its own type.
pub proof fn law_a_value_stands_for_itself(
    s: String,
    b: bool,
    n: u32,
    i: i32,
    bits: u64,
    denom: i32,
)
    ensures
        Value::Text(s)@ == ValueView::Text(s@),
        Value::Bool(b)@ == ValueView::Bool(b),
        Value::U32(n)@ == ValueView::U32(n),
        Value::I32(i)@ == ValueView::I32(i),
        Value::Double(bits)@ == ValueView::Double(bits),
        (Value::Fraction { numer: i, denom })@ == (ValueView::Fraction { numer: i, denom }),
{
}

/// A structure stands for its name and its fields, in order; caps for a structure and features.
pub proof fn law_a_structure_stands_for_its_fields(s: Structure, caps: Caps)
    ensures
        s@.name == s.name@,
        s@.fields.len() == s.fields@.len(),
        forall|i: int|
            0 <= i < s.fields@.len() ==> #[trigger] s@.fields[i] == (
                s.fields@[i].name@,
                s.fields@[i].value@,
            ),
        caps@.structure == caps.structure@,
        caps@.features.len() == caps.features@.len(),
        forall|i: int|
            0 <= i < caps.features@.len() ==> #[trigger] caps@.features[i] == caps.features@[i]@,
{
}

/// A setting stands for itself, at its own type.
pub proof fn law_a_setting_stands_for_itself(
    s: String,
    b: bool,
    n: u32,
    caps: Caps,
    structure: Structure,
)
    ensures
        Setting::Text(s)@ == SettingView::Text(s@),
        Setting::Parsed(s)@ == SettingView::Parsed(s@),
        Setting::Bool(b)@ == SettingView::Bool(b),
        Setting::U32(n)@ == SettingView::U32(n),
        Setting::Caps(caps)@ == SettingView::Caps(caps@),
        Setting::Structure(structure)@ == SettingView::Structure(structure@),
{
}

/// An element stands for its factory, its name and its properties in order.
pub proof fn law_an_element_stands_for_its_settings(e: Element, list: Seq<Property>)
    ensures
        e@.factory == e.factory@,
        e@.name is Some <==> e.name is Some,
        e.name matches Some(name) ==> e@.name == Some(name@),
        e@.properties == properties(e.properties@),
        properties(list).len() == list.len(),
        forall|i: int|
            0 <= i < list.len() ==> #[trigger] properties(list)[i] == (
                list[i].name@,
                list[i].value@,
            ),
{
}

/// An element starts out bare; a name and properties are put on it one by one, and the rest stays.
pub proof fn law_an_element_is_built_up(
    e: ElementView,
    factory: Seq<char>,
    name: Seq<char>,
    value: SettingView,
)
    ensures
        ElementView::plain(factory).factory == factory,
        ElementView::plain(factory).name is None,
        ElementView::plain(factory).properties.len() == 0,
        e.named(name).name == Some(name),
        e.named(name).factory == e.factory && e.named(name).properties == e.properties,
        e.with(name, value).properties == e.properties.push((name, value)),
        e.with(name, value).factory == e.factory && e.with(name, value).name == e.name,
        e.or_say(name).element == e && e.or_say(name).words == Some(name),
        e.recipe().element == e && e.recipe().words is None,
{
}

/// A step stands for what it does, and names itself by its own words when it fails.
pub proof fn law_a_step_names_itself(
    path: String,
    words: String,
    part: Part,
    recipe: Recipe,
    parts: Vec<Part>,
)
    ensures
        (Step::CreateDir { path, words })@ == (StepView::CreateDir { path: path@, words: words@ }),
        (Step::Make { part, recipe })@ == (StepView::Make { part, recipe: recipe@ }),
        (Step::Add { parts, words })@ == (StepView::Add { parts: parts@, words: words@ }),
        (Step::Link { parts, words })@ == (StepView::Link { parts: parts@, words: words@ }),
        (Step::CreateDir { path, words })@.failure() == Some(words@),
        (Step::Add { parts, words })@.failure() == Some(words@),
        (Step::Link { parts, words })@.failure() == Some(words@),
        recipe.words matches Some(own) ==> (Step::Make { part, recipe })@.failure() == Some(own@),
        recipe.words is None ==> (Step::Make { part, recipe })@.failure() is None,
        recipe@.element == recipe.element@,
        recipe.words matches Some(own) ==> recipe@.words == Some(own@),
        recipe.words is None ==> recipe@.words is None,
{
}

/// A plan stands for its steps, in order.
pub proof fn law_a_plan_stands_for_its_steps(plan: Plan)
    ensures
        plan@.len() == plan.steps@.len(),
        forall|i: int| 0 <= i < plan.steps@.len() ==> #[trigger] plan@[i] == plan.steps@[i]@,
{
}

/// The step at `i` is the one step that makes an element for `part`, and it goes by this recipe.
pub open spec fn makes_at(steps: Seq<StepView>, i: int, part: Part, recipe: RecipeView) -> bool {
    &&& 0 <= i < steps.len()
    &&& steps[i] == (StepView::Make { part, recipe })
    &&& forall|j: int|
        0 <= j < steps.len() && j != i ==> (#[trigger] steps[j] is Make ==> steps[j]->part != part)
}

/// The steps make exactly one element for `part`, by this recipe.
pub open spec fn makes_only(steps: Seq<StepView>, part: Part, recipe: RecipeView) -> bool {
    exists|i: int| #[trigger] makes_at(steps, i, part, recipe)
}

/// The steps make no element for `part`.
pub open spec fn makes_none(steps: Seq<StepView>, part: Part) -> bool {
    forall|i: int| 0 <= i < steps.len() && (#[trigger] steps[i] is Make) ==> steps[i]->part != part
}

}
