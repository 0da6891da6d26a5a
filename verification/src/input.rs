//! Input injection as upstream events.
//!
//! The source reads each field of an event at one specific type, and a wrong type does not
//! degrade: it takes the pipeline down. The types are therefore part of the wire contract.
//!
//! Coordinates are 64-bit floating-point numbers; they are passed through by their bits.

use vstd::prelude::*;

use crate::graph::{first_field, Structure, StructureView, Value, ValueView};

verus! {

/// A structure of two fields.
pub open spec fn two_fields(
    name: Seq<char>,
    first: (Seq<char>, ValueView),
    second: (Seq<char>, ValueView),
) -> StructureView {
    StructureView { name, fields: seq![first, second] }
}

/// A pointer motion: both coordinates are doubles.
pub open spec fn motion(x: u64, y: u64) -> StructureView {
    two_fields(
        "wayland.pointer.motion"@,
        ("pointer_x"@, ValueView::Double(x)),
        ("pointer_y"@, ValueView::Double(y)),
    )
}

/// A button transition: the button is a `u32`, its state a `bool`.
pub open spec fn button_transition(button: u32, pressed: bool) -> StructureView {
    two_fields(
        "wayland.pointer.button"@,
        ("button"@, ValueView::U32(button)),
        ("pressed"@, ValueView::Bool(pressed)),
    )
}

/// A key transition: the key is a `u32`, its state a `bool`.
pub open spec fn key_transition(key: u32, pressed: bool) -> StructureView {
    two_fields(
        "wayland.keyboard.key"@,
        ("key"@, ValueView::U32(key)),
        ("pressed"@, ValueView::Bool(pressed)),
    )
}

/// An absolute position: both coordinates are doubles.
pub open spec fn position(x: u64, y: u64) -> StructureView {
    two_fields(
        "wayland.pointer.position"@,
        ("x"@, ValueView::Double(x)),
        ("y"@, ValueView::Double(y)),
    )
}

/// A pointer motion in absolute compositor coordinates, given by the bits of both.
pub fn pointer_motion(x_bits: u64, y_bits: u64) -> (r: Structure)
    ensures
        r@ == motion(x_bits, y_bits),
{
    Structure::new("wayland.pointer.motion").with("pointer_x", Value::Double(x_bits)).with(
        "pointer_y",
        Value::Double(y_bits),
    )
}

/// A pointer button transition.
pub fn pointer_button(button: u32, pressed: bool) -> (r: Structure)
    ensures
        r@ == button_transition(button, pressed),
{
    Structure::new("wayland.pointer.button").with("button", Value::U32(button)).with(
        "pressed",
        Value::Bool(pressed),
    )
}

/// A keyboard key transition.
pub fn keyboard_key(key: u32, pressed: bool) -> (r: Structure)
    ensures
        r@ == key_transition(key, pressed),
{
    Structure::new("wayland.keyboard.key").with("key", Value::U32(key)).with(
        "pressed",
        Value::Bool(pressed),
    )
}

/// A touch or absolute position event, given by the bits of both coordinates.
pub fn absolute_position(x_bits: u64, y_bits: u64) -> (r: Structure)
    ensures
        r@ == position(x_bits, y_bits),
{
    Structure::new("wayland.pointer.position").with("x", Value::Double(x_bits)).with(
        "y",
        Value::Double(y_bits),
    )
}

/// The way that an event travels through a pipeline.
#[derive(Debug, Clone, Copy, PartialEq, Eq, Structural)]
pub enum Direction {
    Upstream,
    Downstream,
}

/// A custom event.
#[derive(Debug, PartialEq, Eq)]
pub struct Event {
    pub direction: Direction,
    pub structure: Structure,
}

impl Event {
    pub fn is_upstream(&self) -> (r: bool)
        ensures
            r == (self.direction == Direction::Upstream),
    {
        self.direction == Direction::Upstream
    }
}

/// Wraps an input structure as the custom event that the source consumes. It travels upstream, or
/// it would never reach the source.
pub fn as_upstream_event(s: Structure) -> (r: Event)
    ensures
        r.direction == Direction::Upstream,
        r.structure == s,
{
    Event { direction: Direction::Upstream, structure: s }
}

/// The wire contract: every field that the source reads from an input structure is there, at the
/// type that it is read at.
pub proof fn law_fields_carry_the_types_the_source_reads(x: u64, y: u64, code: u32, pressed: bool)
    ensures
        motion(x, y).get("pointer_x"@) == Some(ValueView::Double(x)),
        motion(x, y).get("pointer_y"@) == Some(ValueView::Double(y)),
        position(x, y).get("x"@) == Some(ValueView::Double(x)),
        position(x, y).get("y"@) == Some(ValueView::Double(y)),
        button_transition(code, pressed).get("button"@) == Some(ValueView::U32(code)),
        button_transition(code, pressed).get("pressed"@) == Some(ValueView::Bool(pressed)),
        key_transition(code, pressed).get("key"@) == Some(ValueView::U32(code)),
        key_transition(code, pressed).get("pressed"@) == Some(ValueView::Bool(pressed)),
{
    reveal_strlit("pointer_x");
    reveal_strlit("pointer_y");
    reveal_strlit("x");
    reveal_strlit("y");
    reveal_strlit("button");
    reveal_strlit("key");
    reveal_strlit("pressed");
    assert("pointer_x"@[8] != "pointer_y"@[8]);
    assert("x"@[0] != "y"@[0]);
    assert("button"@.len() != "pressed"@.len());
    assert("key"@.len() != "pressed"@.len());
    reveal_with_fuel(first_field, 3);
}

/// Every input structure has its own name and the two fields that the source reads, no more, in
/// their order; the values are those of the input.
pub proof fn law_an_input_structure_holds_its_two_values(x: u64, y: u64, code: u32, pressed: bool)
    ensures
        motion(x, y).name == "wayland.pointer.motion"@,
        motion(x, y).fields == seq![
            ("pointer_x"@, ValueView::Double(x)),
            ("pointer_y"@, ValueView::Double(y)),
        ],
        position(x, y).name == "wayland.pointer.position"@,
        position(x, y).fields == seq![("x"@, ValueView::Double(x)), ("y"@, ValueView::Double(y))],
        button_transition(code, pressed).name == "wayland.pointer.button"@,
        button_transition(code, pressed).fields == seq![
            ("button"@, ValueView::U32(code)),
            ("pressed"@, ValueView::Bool(pressed)),
        ],
        key_transition(code, pressed).name == "wayland.keyboard.key"@,
        key_transition(code, pressed).fields == seq![
            ("key"@, ValueView::U32(code)),
            ("pressed"@, ValueView::Bool(pressed)),
        ],
{
}

}
