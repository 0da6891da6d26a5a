//! Runtime control of a running pipeline.
//!
//! The surface is line-oriented text: one command, one reply. A control has to be able to reply,
//! because a resize that silently clamps is the failure to make visible: the caller is told what
//! was actually applied.

use vstd::prelude::*;

use crate::clock::{Duration, Instant, NANOS_PER_MILLI};
use crate::graph::{Caps, CapsView};
use crate::pipeline::Geometry;
use crate::text::{
    debug_quoted, decimal, decimal_text, lemma_decimal_is_one_line, lemma_decimal_reads_back,
    lemma_one_line, lemma_one_line_sum, lemma_words_of_trimmed, one_line, one_line_up_to, opt_text,
    parse_unsigned, quoted, same_text, split_words, texts, trimmed, unsigned, unsigned_up_to,
    words,
};

verus! {

/// The least time between two resizes that are applied, in milliseconds.
///
/// A caps renegotiation tears down and rebuilds the encoder's input, so a client that resizes on
/// every pointer motion would spend a whole window drag renegotiating and deliver nothing.
pub const MIN_RESIZE_INTERVAL_MS: u64 = 500;

/// The geometry of a running pipeline, and when it was last changed.
#[derive(Debug)]
pub struct Control {
    last_applied: Option<Instant>,
    current: Geometry,
}

pub struct ControlView {
    pub last_applied: Option<Instant>,
    pub current: Geometry,
}

impl View for Control {
    type V = ControlView;

    closed spec fn view(&self) -> ControlView {
        ControlView { last_applied: self.last_applied, current: self.current }
    }
}

/// A request for `n` lands on `got`: within the range on the largest multiple of 8 that is not above
/// `n`, outside on the bound that `n` is beyond.
pub open spec fn lands(n: u32, low: u32, high: u32, got: u32) -> bool {
    &&& got % 8 == 0
    &&& n < low ==> got == low
    &&& n > high ==> got == high
    &&& low <= n <= high ==> n - 8 < got <= n
}

/// What a request to resize leads to.
pub enum ResizeOutcome {
    /// The geometry is the current one already; nothing is applied.
    Unchanged,
    /// The last applied resize is too recent: this many nanoseconds ago.
    Limited(int),
    /// This geometry is applied.
    Applied(Geometry),
}

impl ControlView {
    pub open spec fn initial(geom: Geometry) -> ControlView {
        ControlView { last_applied: None, current: geom.sane() }
    }

    /// The geometry that a request for a size stands for.
    pub open spec fn wanted(self, width: u32, height: u32) -> Geometry {
        (Geometry { width, height, framerate: self.current.framerate }).sane()
    }

    pub open spec fn resize(self, width: u32, height: u32, now: Instant) -> ResizeOutcome {
        let want = self.wanted(width, height);
        if want == self.current {
            ResizeOutcome::Unchanged
        } else {
            match self.last_applied {
                Some(last) => if now.since(last) < MIN_RESIZE_INTERVAL_MS * NANOS_PER_MILLI {
                    ResizeOutcome::Limited(now.since(last))
                } else {
                    ResizeOutcome::Applied(want)
                },
                None => ResizeOutcome::Applied(want),
            }
        }
    }

    /// The state after a request to resize.
    pub open spec fn resized(self, width: u32, height: u32, now: Instant) -> ControlView {
        match self.resize(width, height, now) {
            ResizeOutcome::Applied(geom) => ControlView { last_applied: Some(now), current: geom },
            _ => self,
        }
    }
}

/// A resize that was granted.
#[derive(Debug, PartialEq, Eq)]
pub struct Resized {
    /// The geometry that is in force now.
    pub geometry: Geometry,
    /// What the size filter is to be given; nothing where it has these caps already.
    pub caps: Option<Caps>,
}

/// Why a resize was not applied.
#[derive(Debug, Clone, Copy, PartialEq, Eq, Structural)]
pub enum ControlError {
    /// Too soon after the last one; the geometry that stays in force.
    RateLimited { since_ms: u128, width: u32, height: u32 },
}

impl ControlError {
    /// The reason in words.
    pub open spec fn words(self) -> Seq<char> {
        match self {
            ControlError::RateLimited { since_ms, width, height } => "resize rate-limited: "@
                + decimal(since_ms as nat) + "ms since the last applied resize, minimum "@
                + decimal(MIN_RESIZE_INTERVAL_MS as nat) + "ms (current geometry "@ + decimal(
                width as nat,
            ) + "x"@ + decimal(height as nat) + " is unchanged)"@,
        }
    }

    /// The reason in words.
    pub fn message(&self) -> (r: String)
        ensures
            r@ == self.words(),
    {
        match *self {
            ControlError::RateLimited { since_ms, width, height } => {
                let mut r = "resize rate-limited: ".to_owned();
                r.append(decimal_text(since_ms).as_str());
                r.append("ms since the last applied resize, minimum ");
                r.append(decimal_text(MIN_RESIZE_INTERVAL_MS as u128).as_str());
                r.append("ms (current geometry ");
                r.append(decimal_text(width as u128).as_str());
                r.append("x");
                r.append(decimal_text(height as u128).as_str());
                r.append(" is unchanged)");
                r
            },
        }
    }
}

/// A request lands on one size.
proof fn lemma_lands_on_one(n: u32, low: u32, high: u32, one: u32, other: u32)
    requires
        lands(n, low, high, one),
    ensures
        lands(n, low, high, other) <==> one == other,
{
}

/// The caps in an optional result.
pub open spec fn opt_caps(caps: Option<Caps>) -> Option<CapsView> {
    match caps {
        Some(c) => Some(c@),
        None => None,
    }
}

impl Control {
    #[verifier::type_invariant]
    closed spec fn geometry_is_supported(self) -> bool {
        self.current.sane() == self.current
    }

    /// The control of a pipeline that starts with this geometry, once it is sanitised.
    pub fn new(initial: Geometry) -> (r: Control)
        ensures
            r@ == ControlView::initial(initial),
    {
        Control { last_applied: None, current: initial.sanitised() }
    }

    /// The geometry that is in force.
    pub fn current(&self) -> (r: Geometry)
        ensures
            r == self@.current,
    {
        self.current
    }

    /// Resizes, and says which geometry is in force then and whether the size filter has to be
    /// rewritten for it.
    ///
    /// The size is clamped and rounded, so a request is routinely not what lands. A request for
    /// what is in force already is not rate-limited: it costs no renegotiation, and refusing it
    /// would make an idempotent retry look like a failure.
    pub fn resize(&mut self, width: u32, height: u32, now: Instant) -> (r: Result<
        Resized,
        ControlError,
    >)
        ensures
            final(self)@ == old(self)@.resized(width, height, now),
            match old(self)@.resize(width, height, now) {
                ResizeOutcome::Unchanged => r matches Ok(done) && done.geometry
                    == old(self)@.current && done.caps is None,
                ResizeOutcome::Limited(since) => r == Err::<Resized, ControlError>(
                    ControlError::RateLimited {
                        since_ms: (since / NANOS_PER_MILLI as int) as u128,
                        width: old(self)@.current.width,
                        height: old(self)@.current.height,
                    },
                ),
                ResizeOutcome::Applied(geom) => r matches Ok(done) && done.geometry == geom
                    && opt_caps(done.caps) == Some(geom.caps()),
            },
            r matches Ok(done) ==> {
                &&& lands(width, 640, 3840, done.geometry.width)
                &&& lands(height, 480, 2160, done.geometry.height)
                &&& done.geometry.framerate == old(self)@.current.framerate
                &&& done.geometry == final(self)@.current
                &&& done.caps is None <==> done.geometry == old(self)@.current
            },
            r is Err <==> {
                &&& !(lands(width, 640, 3840, old(self)@.current.width) && lands(
                    height,
                    480,
                    2160,
                    old(self)@.current.height,
                ))
                &&& old(self)@.last_applied matches Some(last) && now.nanos < last.nanos
                    + 500_000_000
            },
            r is Err ==> final(self)@ == old(self)@,
    {
        proof {
            use_type_invariant(&*self);
        }
        let want = Geometry { width, height, framerate: self.current.framerate }.sanitised();
        proof {
            lemma_lands_on_one(width, 640, 3840, want.width, self.current.width);
            lemma_lands_on_one(height, 480, 2160, want.height, self.current.height);
        }
        if want == self.current {
            return Ok(Resized { geometry: self.current, caps: None });
        }
        if let Some(last) = self.last_applied {
            let since = now.duration_since(last);
            if since.nanos < Duration::from_millis(MIN_RESIZE_INTERVAL_MS).nanos {
                return Err(
                    ControlError::RateLimited {
                        since_ms: since.as_millis(),
                        width: self.current.width,
                        height: self.current.height,
                    },
                );
            }
        }
        self.last_applied = Some(now);
        self.current = want;
        Ok(Resized { geometry: want, caps: Some(want.dmabuf_caps()) })
    }
}

/// A command line, read.
#[derive(Debug, PartialEq, Eq)]
pub enum Command {
    Resize { width: u32, height: u32 },
    /// A resize without two numbers.
    ResizeUsage,
    Geometry,
    Unknown(String),
    Empty,
}

pub enum CommandView {
    Resize { width: u32, height: u32 },
    ResizeUsage,
    Geometry,
    Unknown(Seq<char>),
    Empty,
}

impl View for Command {
    type V = CommandView;

    open spec fn view(&self) -> CommandView {
        match self {
            Command::Resize { width, height } => CommandView::Resize {
                width: *width,
                height: *height,
            },
            Command::ResizeUsage => CommandView::ResizeUsage,
            Command::Geometry => CommandView::Geometry,
            Command::Unknown(word) => CommandView::Unknown(word@),
            Command::Empty => CommandView::Empty,
        }
    }
}

/// The size that the word at position `i` gives.
pub open spec fn size_word(parts: Seq<Seq<char>>, i: int) -> Option<nat> {
    if i < parts.len() {
        unsigned_up_to(parts[i], u32::MAX as nat)
    } else {
        None
    }
}

/// How a line reads: its first word is the command, and words that are not asked for are ignored.
pub open spec fn command_of(parts: Seq<Seq<char>>) -> CommandView {
    if parts.len() == 0 {
        CommandView::Empty
    } else if parts[0] == "resize"@ {
        match (size_word(parts, 1), size_word(parts, 2)) {
            (Some(width), Some(height)) => CommandView::Resize {
                width: width as u32,
                height: height as u32,
            },
            _ => CommandView::ResizeUsage,
        }
    } else if parts[0] == "geometry"@ {
        CommandView::Geometry
    } else {
        CommandView::Unknown(parts[0])
    }
}

fn read_size(parts: &Vec<String>, i: usize) -> (r: Option<u32>)
    ensures
        (match r {
            Some(n) => Some(n as nat),
            None => None,
        }) == size_word(texts(parts@), i as int),
{
    if i < parts.len() {
        match parse_unsigned(parts[i].as_str(), u32::MAX as u64) {
            Some(n) => Some(n as u32),
            None => None,
        }
    } else {
        None
    }
}

/// Reads a command line.
pub fn parse_command(line: &str) -> (r: Command)
    ensures
        r@ == command_of(words(line@)),
{
    let parts = split_words(line);
    if parts.len() == 0 {
        return Command::Empty;
    }
    assert(texts(parts@)[0] == parts@[0]@);
    let first = parts[0].as_str();
    if same_text(first, "resize") {
        match (read_size(&parts, 1), read_size(&parts, 2)) {
            (Some(width), Some(height)) => Command::Resize { width, height },
            _ => Command::ResizeUsage,
        }
    } else if same_text(first, "geometry") {
        proof {
            reveal_strlit("resize");
            reveal_strlit("geometry");
        }
        Command::Geometry
    } else {
        Command::Unknown(parts[0].clone())
    }
}

/// One reply line, and what the size filter is to be given.
#[derive(Debug, PartialEq, Eq)]
pub struct Reply {
    pub text: String,
    pub caps: Option<Caps>,
}

/// The reply to a resize with its outcome.
pub open spec fn resize_reply(before: ControlView, outcome: ResizeOutcome) -> Seq<char> {
    match outcome {
        ResizeOutcome::Unchanged => resized_line(before.current),
        ResizeOutcome::Applied(geom) => resized_line(geom),
        ResizeOutcome::Limited(since) => "ERR "@ + (ControlError::RateLimited {
            since_ms: (since / NANOS_PER_MILLI as int) as u128,
            width: before.current.width,
            height: before.current.height,
        }).words(),
    }
}

/// The reply that names the size that is in force.
pub open spec fn resized_line(geom: Geometry) -> Seq<char> {
    "OK resize "@ + decimal(geom.width as nat) + "x"@ + decimal(geom.height as nat)
}

/// The reply that names the whole geometry in force.
pub open spec fn geometry_line(geom: Geometry) -> Seq<char> {
    "OK geometry "@ + decimal(geom.width as nat) + "x"@ + decimal(geom.height as nat) + "@"@
        + decimal(geom.framerate as nat)
}

/// The reply to a command that is not known, given the quoted word.
pub open spec fn unknown_line(quoted_word: Seq<char>) -> Seq<char> {
    "ERR unknown command "@ + quoted_word
}

/// The reply to a command that needs no control; `None` where it does.
pub open spec fn fixed_reply(command: CommandView) -> Option<Seq<char>> {
    match command {
        CommandView::ResizeUsage => Some(
            "ERR resize needs <width> <height> as positive integers"@,
        ),
        CommandView::Unknown(word) => Some(unknown_line(quoted(word))),
        CommandView::Empty => Some("ERR empty command"@),
        _ => None,
    }
}

impl ControlView {
    /// The reply to a command.
    pub open spec fn reply(self, command: CommandView, now: Instant) -> Seq<char> {
        match command {
            CommandView::Resize { width, height } => resize_reply(
                self,
                self.resize(width, height, now),
            ),
            CommandView::Geometry => geometry_line(self.current),
            other => fixed_reply(other)->0,
        }
    }

    /// What the size filter is to be given after a command.
    pub open spec fn new_caps(self, command: CommandView, now: Instant) -> Option<CapsView> {
        match command {
            CommandView::Resize { width, height } => match self.resize(width, height, now) {
                ResizeOutcome::Applied(geom) => Some(geom.caps()),
                _ => None,
            },
            _ => None,
        }
    }

    /// The state after a command.
    pub open spec fn after(self, command: CommandView, now: Instant) -> ControlView {
        match command {
            CommandView::Resize { width, height } => self.resized(width, height, now),
            _ => self,
        }
    }
}

fn size_text(start: &str, geom: Geometry) -> (r: String)
    ensures
        r@ == start@ + decimal(geom.width as nat) + "x"@ + decimal(geom.height as nat),
{
    let mut r = start.to_owned();
    r.append(decimal_text(geom.width as u128).as_str());
    r.append("x");
    r.append(decimal_text(geom.height as u128).as_str());
    r
}

/// The reply to a command that is not known, given the quoted word.
pub fn unknown_reply(quoted_word: &str) -> (r: String)
    ensures
        r@ == unknown_line(quoted_word@),
        one_line(quoted_word@) ==> one_line(r@),
{
    proof {
        if one_line(quoted_word@) {
            lemma_fixed_lines();
            lemma_one_line_sum("ERR unknown command "@, quoted_word@);
        }
    }
    let mut r = "ERR unknown command ".to_owned();
    r.append(quoted_word);
    r
}

fn fixed_answer(command: &Command) -> (r: Option<String>)
    ensures
        opt_text(r) == fixed_reply(command@),
        r matches Some(text) ==> one_line(text@),
{
    proof {
        lemma_fixed_lines();
    }
    match command {
        Command::ResizeUsage => Some(
            "ERR resize needs <width> <height> as positive integers".to_owned(),
        ),
        Command::Unknown(word) => Some(unknown_reply(debug_quoted(word.as_str()).as_str())),
        Command::Empty => Some("ERR empty command".to_owned()),
        _ => None,
    }
}

/// Carries out one command line and answers it with one line, `OK ...` or `ERR ...`, so that a
/// caller can assert on the reply.
pub fn dispatch(line: &str, control: &mut Control, now: Instant) -> (r: Reply)
    ensures
        r.text@ == old(control)@.reply(command_of(words(line@)), now),
        opt_caps(r.caps) == old(control)@.new_caps(command_of(words(line@)), now),
        final(control)@ == old(control)@.after(command_of(words(line@)), now),
        one_line(r.text@),
{
    proof {
        lemma_controlled_lines(control@, command_of(words(line@)), now);
    }
    let command = parse_command(line);
    if let Some(text) = fixed_answer(&command) {
        return Reply { text, caps: None };
    }
    match command {
        Command::Resize { width, height } => match control.resize(width, height, now) {
            Ok(done) => Reply { text: size_text("OK resize ", done.geometry), caps: done.caps },
            Err(e) => {
                let mut text = "ERR ".to_owned();
                text.append(e.message().as_str());
                Reply { text, caps: None }
            },
        },
        _ => {
            let geom = control.current();
            let mut text = size_text("OK geometry ", geom);
            text.append("@");
            text.append(decimal_text(geom.framerate as u128).as_str());
            Reply { text, caps: None }
        },
    }
}

proof fn lemma_fixed_lines()
    ensures
        one_line("ERR resize needs <width> <height> as positive integers"@),
        one_line("ERR unknown command "@),
        one_line("ERR empty command"@),
        one_line("ERR control lock poisoned: "@),
{
    reveal_strlit("ERR resize needs <width> <height> as positive integers");
    reveal_strlit("ERR unknown command ");
    reveal_strlit("ERR empty command");
    reveal_strlit("ERR control lock poisoned: ");
    reveal_with_fuel(one_line_up_to, 60);
    lemma_one_line("ERR resize needs <width> <height> as positive integers"@);
    lemma_one_line("ERR unknown command "@);
    lemma_one_line("ERR empty command"@);
    lemma_one_line("ERR control lock poisoned: "@);
}

proof fn lemma_size_is_one_line(start: Seq<char>, width: nat, height: nat)
    requires
        one_line(start),
    ensures
        one_line(start + decimal(width) + "x"@ + decimal(height)),
{
    reveal_strlit("x");
    reveal_with_fuel(one_line_up_to, 2);
    lemma_one_line("x"@);
    lemma_decimal_is_one_line(width);
    lemma_decimal_is_one_line(height);
    lemma_one_line_sum(start, decimal(width));
    lemma_one_line_sum(start + decimal(width), "x"@);
    lemma_one_line_sum(start + decimal(width) + "x"@, decimal(height));
}

proof fn lemma_limit_is_one_line(since_ms: u128, width: u32, height: u32)
    ensures
        one_line("ERR "@ + (ControlError::RateLimited { since_ms, width, height }).words()),
{
    let start = "resize rate-limited: "@;
    let since = "ms since the last applied resize, minimum "@;
    let current = "ms (current geometry "@;
    let end = " is unchanged)"@;
    reveal_strlit("ERR ");
    reveal_strlit("resize rate-limited: ");
    reveal_strlit("ms since the last applied resize, minimum ");
    reveal_strlit("ms (current geometry ");
    reveal_strlit(" is unchanged)");
    reveal_with_fuel(one_line_up_to, 50);
    lemma_one_line("ERR "@);
    lemma_one_line(start);
    lemma_one_line(since);
    lemma_one_line(current);
    lemma_one_line(end);
    lemma_decimal_is_one_line(since_ms as nat);
    lemma_decimal_is_one_line(MIN_RESIZE_INTERVAL_MS as nat);
    let a = start + decimal(since_ms as nat);
    let b = a + since;
    let c = b + decimal(MIN_RESIZE_INTERVAL_MS as nat);
    let d = c + current;
    lemma_one_line_sum(start, decimal(since_ms as nat));
    lemma_one_line_sum(a, since);
    lemma_one_line_sum(b, decimal(MIN_RESIZE_INTERVAL_MS as nat));
    lemma_one_line_sum(c, current);
    lemma_size_is_one_line(d, width as nat, height as nat);
    let words = (ControlError::RateLimited { since_ms, width, height }).words();
    lemma_one_line_sum(d + decimal(width as nat) + "x"@ + decimal(height as nat), end);
    lemma_one_line_sum("ERR "@, words);
}

proof fn lemma_controlled_lines(control: ControlView, command: CommandView, now: Instant)
    ensures
        fixed_reply(command) is None ==> one_line(control.reply(command, now)),
{
    reveal_strlit("OK resize ");
    reveal_strlit("OK geometry ");
    reveal_strlit("@");
    reveal_with_fuel(one_line_up_to, 20);
    lemma_one_line("OK resize "@);
    lemma_one_line("OK geometry "@);
    lemma_one_line("@"@);
    match command {
        CommandView::Resize { width, height } => match control.resize(width, height, now) {
            ResizeOutcome::Unchanged => {
                lemma_size_is_one_line(
                    "OK resize "@,
                    control.current.width as nat,
                    control.current.height as nat,
                );
            },
            ResizeOutcome::Applied(geom) => {
                lemma_size_is_one_line("OK resize "@, geom.width as nat, geom.height as nat);
            },
            ResizeOutcome::Limited(since) => {
                lemma_limit_is_one_line(
                    (since / NANOS_PER_MILLI as int) as u128,
                    control.current.width,
                    control.current.height,
                );
            },
        },
        CommandView::Geometry => {
            let geom = control.current;
            let size = "OK geometry "@ + decimal(geom.width as nat) + "x"@ + decimal(
                geom.height as nat,
            );
            lemma_size_is_one_line("OK geometry "@, geom.width as nat, geom.height as nat);
            lemma_decimal_is_one_line(geom.framerate as nat);
            lemma_one_line_sum(size, "@"@);
            lemma_one_line_sum(size + "@"@, decimal(geom.framerate as nat));
        },
        _ => {},
    }
}

/// The reply to a command when the control cannot be reached, for this cause.
pub open spec fn poisoned_reply(command: CommandView, cause: Seq<char>) -> Seq<char> {
    match fixed_reply(command) {
        Some(text) => text,
        None => "ERR control lock poisoned: "@ + cause,
    }
}

/// Answers a command line when the control cannot be reached, for this cause.
pub fn dispatch_poisoned(line: &str, cause: &str) -> (r: String)
    ensures
        r@ == poisoned_reply(command_of(words(line@)), cause@),
        one_line(cause@) ==> one_line(r@),
{
    proof {
        if one_line(cause@) {
            lemma_fixed_lines();
            lemma_one_line_sum("ERR control lock poisoned: "@, cause@);
        }
    }
    match fixed_answer(&parse_command(line)) {
        Some(text) => text,
        None => {
            let mut r = "ERR control lock poisoned: ".to_owned();
            r.append(cause);
            r
        },
    }
}

/// One step of binding the control socket, with the words that name it when it fails.
#[derive(Debug, PartialEq, Eq)]
pub enum BindStep {
    /// Remove the file at the socket's path.
    RemoveStale { words: String },
    Bind { words: String },
}

pub enum BindStepView {
    RemoveStale { words: Seq<char> },
    Bind { words: Seq<char> },
}

impl View for BindStep {
    type V = BindStepView;

    open spec fn view(&self) -> BindStepView {
        match self {
            BindStep::RemoveStale { words } => BindStepView::RemoveStale { words: words@ },
            BindStep::Bind { words } => BindStepView::Bind { words: words@ },
        }
    }
}

/// The steps that bind the control socket at `path`, given whether something exists there.
pub open spec fn bind_steps(path: Seq<char>, exists_already: bool) -> Seq<BindStepView> {
    let binding = BindStepView::Bind { words: "binding the control socket "@ + path };
    if exists_already {
        seq![
            BindStepView::RemoveStale { words: "removing the stale control socket "@ + path },
            binding,
        ]
    } else {
        seq![binding]
    }
}

/// Binds the control socket, removing a stale one first: a file left over from a crashed run makes
/// binding fail as if the program were running already.
pub fn bind(path: &str, exists_already: bool) -> (r: Vec<BindStep>)
    ensures
        r@.map_values(|s: BindStep| s@) == bind_steps(path@, exists_already),
{
    let mut r: Vec<BindStep> = Vec::new();
    if exists_already {
        let mut removing = "removing the stale control socket ".to_owned();
        removing.append(path);
        r.push(BindStep::RemoveStale { words: removing });
    }
    let mut binding = "binding the control socket ".to_owned();
    binding.append(path);
    r.push(BindStep::Bind { words: binding });
    assert(r@.map_values(|s: BindStep| s@) =~= bind_steps(path@, exists_already));
    r
}

/// Where the control socket lives, from its setting, `raw`; it can be set so that a second instance
/// does not collide with the first.
pub fn socket_path(raw: Option<&str>) -> (r: String)
    ensures
        r@ == match raw {
            Some(path) => path@,
            None => "/tmp/cstream-control.sock"@,
        },
{
    match raw {
        Some(path) => path.to_owned(),
        None => "/tmp/cstream-control.sock".to_owned(),
    }
}

/// A request to resize, at the time that it came.
pub struct Request {
    pub width: u32,
    pub height: u32,
    pub now: Instant,
}

/// The control of a pipeline that started with this geometry, after these requests.
pub open spec fn control_after(initial: Geometry, requests: Seq<Request>) -> ControlView
    decreases requests.len(),
{
    if requests.len() == 0 {
        ControlView::initial(initial)
    } else {
        let last = requests.last();
        control_after(initial, requests.drop_last()).resized(last.width, last.height, last.now)
    }
}

/// Request `i` is applied.
pub open spec fn applied_at(initial: Geometry, requests: Seq<Request>, i: int) -> bool {
    0 <= i < requests.len() && control_after(initial, requests.take(i)).resize(
        requests[i].width,
        requests[i].height,
        requests[i].now,
    ) is Applied
}

/// Whatever is requested, the geometry in force is one that the encoder can represent, and the
/// frame rate is the one that the pipeline started with.
pub proof fn law_geometry_in_force_is_supported(initial: Geometry, requests: Seq<Request>)
    ensures
        control_after(initial, requests).current.sane() == control_after(initial, requests).current,
        control_after(initial, requests).current.framerate == initial.sane().framerate,
    decreases requests.len(),
{
    if requests.len() > 0 {
        law_geometry_in_force_is_supported(initial, requests.drop_last());
    }
}

/// Two resizes that are applied one after the other lie at least the minimum interval apart.
pub proof fn law_applied_resizes_keep_the_interval(
    initial: Geometry,
    requests: Seq<Request>,
    i: int,
    j: int,
)
    requires
        applied_at(initial, requests, i),
        applied_at(initial, requests, j),
        i < j,
        forall|k: int| i < k < j ==> !#[trigger] applied_at(initial, requests, k),
    ensures
        requests[j].now.since(requests[i].now) >= MIN_RESIZE_INTERVAL_MS * NANOS_PER_MILLI,
{
    lemma_last_applied(initial, requests, i, j);
}

proof fn lemma_last_applied(initial: Geometry, requests: Seq<Request>, i: int, j: int)
    requires
        applied_at(initial, requests, i),
        i < j <= requests.len(),
        forall|k: int| i < k < j ==> !#[trigger] applied_at(initial, requests, k),
    ensures
        control_after(initial, requests.take(j)).last_applied == Some(requests[i].now),
    decreases j,
{
    assert(requests.take(j).drop_last() == requests.take(j - 1));
    assert(requests.take(j).last() == requests[j - 1]);
    if i < j - 1 {
        lemma_last_applied(initial, requests, i, j - 1);
        assert(!applied_at(initial, requests, j - 1));
    }
}

/// A request that is not applied changes nothing, and one for what is in force already is never
/// refused.
pub proof fn law_a_refused_resize_changes_nothing(
    control: ControlView,
    width: u32,
    height: u32,
    now: Instant,
)
    ensures
        !(control.resize(width, height, now) is Applied) ==> control.resized(width, height, now)
            == control,
        control.wanted(width, height) == control.current ==> control.resize(width, height, now)
            is Unchanged,
        control.resize(width, height, now) is Limited ==> control.last_applied is Some,
{
}

/// A resize can be repeated at once: the second request is granted, without any effect.
pub proof fn law_a_granted_resize_can_be_repeated(
    control: ControlView,
    width: u32,
    height: u32,
    now: Instant,
    later: Instant,
)
    requires
        !(control.resize(width, height, now) is Limited),
    ensures
        control.resized(width, height, now).resize(width, height, later) is Unchanged,
{
}

/// A granted resize names in its reply the size that is in force then, which need not be the one
/// that was asked for.
pub proof fn law_the_reply_names_what_applied(
    control: ControlView,
    width: u32,
    height: u32,
    now: Instant,
)
    ensures
        !(control.resize(width, height, now) is Limited) ==> control.reply(
            CommandView::Resize { width, height },
            now,
        ) == resized_line(control.resized(width, height, now).current),
{
}

/// A reply tells the size apart from every other: two sizes that differ are never answered alike.
pub proof fn law_the_reply_tells_the_size(g: Geometry, h: Geometry)
    ensures
        resized_line(g) == resized_line(h) ==> g.width == h.width && g.height == h.height,
{
    if resized_line(g) == resized_line(h) {
        let start = "OK resize "@;
        lemma_size_text(start, g, h);
    }
}

proof fn lemma_size_text(start: Seq<char>, g: Geometry, h: Geometry)
    requires
        start + decimal(g.width as nat) + "x"@ + decimal(g.height as nat) == start + decimal(
            h.width as nat,
        ) + "x"@ + decimal(h.height as nat),
    ensures
        g.width == h.width,
        g.height == h.height,
{
    reveal_strlit("x");
    let a = decimal(g.width as nat);
    let b = decimal(h.width as nat);
    let c = decimal(g.height as nat);
    let d = decimal(h.height as nat);
    let left = start + a + "x"@ + c;
    let right = start + b + "x"@ + d;
    lemma_decimal_reads_back(g.width as nat);
    lemma_decimal_reads_back(h.width as nat);
    lemma_decimal_reads_back(g.height as nat);
    lemma_decimal_reads_back(h.height as nat);
    let n = start.len() as int;
    if a.len() < b.len() {
        assert(left[n + a.len()] == 'x');
        assert(right[n + a.len()] == b[a.len() as int]);
    }
    if b.len() < a.len() {
        assert(right[n + b.len()] == 'x');
        assert(left[n + b.len()] == a[b.len() as int]);
    }
    assert(a =~= left.subrange(n, n + a.len()));
    assert(b =~= right.subrange(n, n + b.len()));
    assert(c =~= left.skip(n + a.len() + 1));
    assert(d =~= right.skip(n + b.len() + 1));
}

/// What a reply names can be asked for again: the size in force, written out, reads as that very
/// size, and asking for it is granted at any time and changes nothing.
pub proof fn law_a_named_size_can_be_asked_for_again(control: ControlView, now: Instant)
    requires
        control.current.sane() == control.current,
    ensures
        ({
            let line = seq![
                "resize"@,
                decimal(control.current.width as nat),
                decimal(control.current.height as nat),
            ];
            let width = control.current.width;
            let height = control.current.height;
            &&& command_of(line) == (CommandView::Resize { width, height })
            &&& control.resize(width, height, now) is Unchanged
            &&& control.reply(command_of(line), now) == resized_line(control.current)
        }),
{
    lemma_decimal_reads_back(control.current.width as nat);
    lemma_decimal_reads_back(control.current.height as nat);
}

/// The size filter keeps in step: if it carries the caps of the geometry in force, it does so again
/// once it was given what a command calls for.
pub proof fn law_the_size_filter_keeps_in_step(
    control: ControlView,
    filter: CapsView,
    command: CommandView,
    now: Instant,
)
    requires
        filter == control.current.caps(),
    ensures
        (match control.new_caps(command, now) {
            Some(caps) => caps,
            None => filter,
        }) == control.after(command, now).current.caps(),
{
}

/// Every reply starts with `OK ` or with `ERR `, and only a granted resize or a question for the
/// geometry gets the former.
pub proof fn law_every_reply_is_ok_or_err(
    control: ControlView,
    parts: Seq<Seq<char>>,
    now: Instant,
)
    ensures
        ({
            let command = command_of(parts);
            let granted = match command {
                CommandView::Resize { width, height } => !(control.resize(
                    width,
                    height,
                    now,
                ) is Limited),
                CommandView::Geometry => true,
                _ => false,
            };
            if granted {
                "OK "@.is_prefix_of(control.reply(command, now))
            } else {
                "ERR "@.is_prefix_of(control.reply(command, now))
            }
        }),
{
    reveal_strlit("OK ");
    reveal_strlit("ERR ");
    reveal_strlit("OK resize ");
    reveal_strlit("OK geometry ");
    reveal_strlit("ERR resize needs <width> <height> as positive integers");
    reveal_strlit("ERR unknown command ");
    reveal_strlit("ERR empty command");
    let reply = control.reply(command_of(parts), now);
    assert(reply.len() >= 4);
    assert(reply.subrange(0, 3) =~= "OK "@ || reply.subrange(0, 4) =~= "ERR "@);
}

/// While the control cannot be reached, every reply starts with `ERR `.
pub proof fn law_every_poisoned_reply_is_err(command: CommandView, cause: Seq<char>)
    ensures
        "ERR "@.is_prefix_of(poisoned_reply(command, cause)),
{
    reveal_strlit("ERR ");
    reveal_strlit("ERR resize needs <width> <height> as positive integers");
    reveal_strlit("ERR unknown command ");
    reveal_strlit("ERR empty command");
    reveal_strlit("ERR control lock poisoned: ");
    assert(poisoned_reply(command, cause).subrange(0, 4) =~= "ERR "@);
}

/// A command that is answered with an error changes nothing: neither the geometry in force, nor the
/// time of the last resize, nor the size filter. Asking for the geometry changes nothing either, and
/// tells all of it.
pub proof fn law_an_error_changes_nothing(
    control: ControlView,
    parts: Seq<Seq<char>>,
    now: Instant,
)
    ensures
        ({
            let command = command_of(parts);
            &&& "ERR "@.is_prefix_of(control.reply(command, now)) || command is Geometry ==> {
                &&& control.after(command, now) == control
                &&& control.new_caps(command, now) is None
            }
            &&& command is Geometry ==> control.reply(command, now) == geometry_line(
                control.current,
            )
        }),
{
    law_every_reply_is_ok_or_err(control, parts, now);
    reveal_strlit("OK ");
    reveal_strlit("ERR ");
    let reply = control.reply(command_of(parts), now);
    if "ERR "@.is_prefix_of(reply) && "OK "@.is_prefix_of(reply) {
        assert("ERR "@[0] == reply[0] && "OK "@[0] == reply[0]);
    }
}

/// The white space around a command line changes nothing of how it reads.
pub proof fn law_space_around_a_command_is_ignored(line: Seq<char>)
    ensures
        command_of(words(trimmed(line))) == command_of(words(line)),
{
    lemma_words_of_trimmed(line);
}

/// What a request to resize leads to, in terms of the request alone: the size that it lands on is in
/// force afterwards, at the rate that the pipeline has, unless that would be a second change within
/// half a second, which is refused and changes nothing.
pub proof fn law_a_resize_lands_on_the_largest_supported_size(
    control: ControlView,
    width: u32,
    height: u32,
    now: Instant,
)
    requires
        control.current.sane() == control.current,
    ensures
        ({
            let after = control.resized(width, height, now);
            let there_already = lands(width, 640, 3840, control.current.width) && lands(
                height,
                480,
                2160,
                control.current.height,
            );
            let too_soon = control.last_applied matches Some(last) && now.nanos < last.nanos
                + 500_000_000;
            &&& control.resize(width, height, now) is Unchanged <==> there_already
            &&& control.resize(width, height, now) is Limited <==> !there_already && too_soon
            &&& control.resize(width, height, now) is Applied <==> !there_already && !too_soon
            &&& !there_already && !too_soon ==> {
                &&& lands(width, 640, 3840, after.current.width)
                &&& lands(height, 480, 2160, after.current.height)
                &&& after.current.framerate == control.current.framerate
                &&& after.last_applied == Some(now)
                &&& control.resize(width, height, now) == ResizeOutcome::Applied(after.current)
            }
            &&& there_already || too_soon ==> after == control
        }),
{
    let want = control.wanted(width, height);
    lemma_lands_on_one(width, 640, 3840, want.width, control.current.width);
    lemma_lands_on_one(height, 480, 2160, want.height, control.current.height);
}

/// A control starts at the size that its pipeline was asked for lands on, with no resize behind it.
pub proof fn law_a_control_starts_without_a_resize(geom: Geometry)
    ensures
        lands(geom.width, 640, 3840, ControlView::initial(geom).current.width),
        lands(geom.height, 480, 2160, ControlView::initial(geom).current.height),
        1 <= geom.framerate <= 240 ==> ControlView::initial(geom).current.framerate
            == geom.framerate,
        ControlView::initial(geom).last_applied is None,
{
}

/// A refused resize says how long ago the last one was, in whole milliseconds, how long it has to be,
/// and which size stays in force.
pub proof fn law_a_refusal_says_why(since_ms: u128, width: u32, height: u32)
    ensures
        (ControlError::RateLimited { since_ms, width, height }).words() == "resize rate-limited: "@
            + decimal(since_ms as nat) + "ms since the last applied resize, minimum "@ + decimal(500)
            + "ms (current geometry "@ + decimal(width as nat) + "x"@ + decimal(height as nat)
            + " is unchanged)"@,
{
}

/// How a command line reads: by its first word, and a resize by the two numbers behind it.
pub proof fn law_a_command_is_its_first_word(parts: Seq<Seq<char>>, width: u32, height: u32)
    ensures
        command_of(parts) is Empty <==> parts.len() == 0,
        command_of(parts) is Geometry <==> parts.len() > 0 && parts[0] == "geometry"@,
        command_of(parts) == (CommandView::Resize { width, height }) <==> {
            &&& parts.len() >= 3
            &&& parts[0] == "resize"@
            &&& unsigned(parts[1]) == Some(width as nat)
            &&& unsigned(parts[2]) == Some(height as nat)
        },
        command_of(parts) is Resize || command_of(parts) is ResizeUsage <==> parts.len() > 0
            && parts[0] == "resize"@,
        command_of(parts) is Unknown <==> parts.len() > 0 && parts[0] != "resize"@ && parts[0]
            != "geometry"@,
        command_of(parts) matches CommandView::Unknown(word) ==> word == parts[0],
{
    reveal_strlit("resize");
    reveal_strlit("geometry");
    assert("resize"@.len() != "geometry"@.len());
}

/// What each command is answered.
pub proof fn law_each_command_has_its_answer(
    control: ControlView,
    width: u32,
    height: u32,
    word: Seq<char>,
    now: Instant,
)
    ensures
        control.reply(CommandView::Geometry, now) == "OK geometry "@ + decimal(
            control.current.width as nat,
        ) + "x"@ + decimal(control.current.height as nat) + "@"@ + decimal(
            control.current.framerate as nat,
        ),
        control.reply(CommandView::ResizeUsage, now)
            == "ERR resize needs <width> <height> as positive integers"@,
        control.reply(CommandView::Empty, now) == "ERR empty command"@,
        control.reply(CommandView::Unknown(word), now) == "ERR unknown command "@ + quoted(word),
        ({
            let command = CommandView::Resize { width, height };
            let after = control.after(command, now);
            match control.resize(width, height, now) {
                ResizeOutcome::Limited(since) => {
                    &&& control.last_applied is Some
                    &&& since == now.since(control.last_applied->0)
                    &&& control.reply(command, now) == "ERR "@ + (ControlError::RateLimited {
                        since_ms: (since / 1_000_000) as u128,
                        width: control.current.width,
                        height: control.current.height,
                    }).words()
                    &&& control.new_caps(command, now) is None
                },
                ResizeOutcome::Unchanged => {
                    &&& control.reply(command, now) == "OK resize "@ + decimal(
                        after.current.width as nat,
                    ) + "x"@ + decimal(after.current.height as nat)
                    &&& control.new_caps(command, now) is None
                },
                ResizeOutcome::Applied(_) => {
                    &&& control.reply(command, now) == "OK resize "@ + decimal(
                        after.current.width as nat,
                    ) + "x"@ + decimal(after.current.height as nat)
                    &&& control.new_caps(command, now) == Some(after.current.caps())
                },
            }
        }),
        control.after(CommandView::Resize { width, height }, now) == control.resized(
            width,
            height,
            now,
        ),
        control.after(CommandView::Geometry, now) == control,
        control.after(CommandView::ResizeUsage, now) == control,
        control.after(CommandView::Empty, now) == control,
        control.after(CommandView::Unknown(word), now) == control,
{
}

/// While the control cannot be reached, what needs it is answered with the cause, and all else as
/// ever.
pub proof fn law_a_poisoned_control_answers_with_the_cause(
    control: ControlView,
    width: u32,
    height: u32,
    word: Seq<char>,
    cause: Seq<char>,
    now: Instant,
)
    ensures
        poisoned_reply(CommandView::Resize { width, height }, cause)
            == "ERR control lock poisoned: "@ + cause,
        poisoned_reply(CommandView::Geometry, cause) == "ERR control lock poisoned: "@ + cause,
        poisoned_reply(CommandView::ResizeUsage, cause) == control.reply(
            CommandView::ResizeUsage,
            now,
        ),
        poisoned_reply(CommandView::Empty, cause) == control.reply(CommandView::Empty, now),
        poisoned_reply(CommandView::Unknown(word), cause) == control.reply(
            CommandView::Unknown(word),
            now,
        ),
{
}

/// The socket is bound last, and what stands in its place is removed before, exactly where there is
/// something; each step names the path when it fails.
pub proof fn law_a_stale_socket_is_removed_first(path: Seq<char>)
    ensures
        bind_steps(path, true) == seq![
            BindStepView::RemoveStale { words: "removing the stale control socket "@ + path },
            BindStepView::Bind { words: "binding the control socket "@ + path },
        ],
        bind_steps(path, false) == seq![
            BindStepView::Bind { words: "binding the control socket "@ + path },
        ],
{
}

/// Commands, steps and caps stand for themselves.
pub proof fn law_commands_and_steps_stand_for_themselves(
    width: u32,
    height: u32,
    text: String,
    caps: Caps,
)
    ensures
        (Command::Resize { width, height })@ == (CommandView::Resize { width, height }),
        Command::ResizeUsage@ == CommandView::ResizeUsage,
        Command::Geometry@ == CommandView::Geometry,
        Command::Unknown(text)@ == CommandView::Unknown(text@),
        Command::Empty@ == CommandView::Empty,
        (BindStep::RemoveStale { words: text })@ == (BindStepView::RemoveStale { words: text@ }),
        (BindStep::Bind { words: text })@ == (BindStepView::Bind { words: text@ }),
        opt_caps(Some(caps)) == Some(caps@),
        opt_caps(None) is None,
{
}

}
