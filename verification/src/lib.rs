//! The decisions of a Wayland desktop streamed over WebRTC.
//!
//! What a streamer decides is here, as functions on plain values; the media framework, the sockets
//! and the system calls are with the program around it. The modules carry the parts that are easy
//! to get subtly wrong, because each of them fails silently:
//!
//! * `rank` - promotion of the encoders, which must come before the first sink
//! * `display` - the display source, and the directory that its compositor needs
//! * `input` - the types of the event fields, which the source reads exactly
//! * `webrtc` - which encoder actually carries the stream, and saying so out loud
//! * `audio` - capture of a monitor, which connects and stays silent if it is misconfigured
//! * `pipeline` - the capture graph, and sizes that an encoder can represent
//! * `control` - resizing a running pipeline, and telling what was applied
//! * `lifecycle` - locking the desktop once the last viewer is gone
//! * `session` - one run of the streamer, stage by stage
//! * `leader` - dropping privilege for a session, for good
//!
//! `graph`, `text` and `clock` hold what these speak of.

use vstd::prelude::*;

use crate::rank::{promoted, PromotedRegistry, Registry, HARDWARE_ENCODERS};

pub mod audio;
pub mod clock;
pub mod control;
pub mod display;
pub mod graph;
pub mod input;
pub mod leader;
pub mod lifecycle;
pub mod pipeline;
pub mod rank;
pub mod session;
pub mod text;
pub mod webrtc;

verus! {

/// Promotes the hardware encoders once the media framework has been initialised, given its
/// registry, or else the cause for which there is none.
///
/// The order is the contract: the sink enumerates encoders once, on first use, so a promotion after
/// that point is silently ineffective.
pub fn init(started: Result<Registry, String>) -> (r: Result<PromotedRegistry, String>)
    ensures
        match started {
            Ok(registry) => r matches Ok(host) && host.factories() == promoted(
                registry@,
                HARDWARE_ENCODERS@.len(),
            ),
            Err(cause) => r == Err::<PromotedRegistry, String>(cause),
        },
{
    match started {
        Ok(registry) => Ok(PromotedRegistry::new(registry)),
        Err(cause) => Err(cause),
    }
}

}
