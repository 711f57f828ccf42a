//! The Server screen's state glyph and uptime.

use vstd::prelude::*;
use crate::app::{ServerRuntime, ServerState};
use crate::components::stats::{duration_view, format_duration};
use crate::text::push_char;

verus! {

/// The glyph in front of a lifecycle state.
pub open spec fn state_glyph_view(state: ServerState) -> Seq<char> {
    match state {
        ServerState::Off => "○ "@,
        ServerState::Starting | ServerState::Stopping => "◐ "@,
        ServerState::Serving => "● "@,
        ServerState::Error(_) => "✖ "@,
    }
}

/// The glyph in front of a lifecycle state. Starting and Stopping share
/// the "in transition" glyph on purpose; the other states each have
/// their own.
pub fn state_glyph(state: &ServerState) -> (res: &'static str)
    ensures
        res@ == state_glyph_view(*state),
{
    match state {
        ServerState::Off => "○ ",
        ServerState::Starting | ServerState::Stopping => "◐ ",
        ServerState::Serving => "● ",
        ServerState::Error(_) => "✖ ",
    }
}

/// Off, a transition, Serving and Error each read differently.
pub proof fn lemma_every_state_has_a_distinct_glyph(a: ServerState, b: ServerState)
    requires
        !(a is Starting || a is Stopping) || !(b is Starting || b is Stopping),
        !(a is Error && b is Error),
        a != b,
    ensures
        state_glyph_view(a) != state_glyph_view(b),
{
    reveal_strlit("○ ");
    reveal_strlit("◐ ");
    reveal_strlit("● ");
    reveal_strlit("✖ ");
    assert(state_glyph_view(a)[0] != state_glyph_view(b)[0]);
}

/// How long the supervised process has been in its current state, read
/// naturally, or `-` when nothing is being timed. The figure comes from the
/// clock, so the contract says only that it is some duration written the
/// way `format_duration` writes one.
pub fn uptime(server: &ServerRuntime) -> (res: String)
    ensures
        server.started_at is None ==> res@ == seq!['-'],
        server.started_at is Some ==> exists|total: nat| res@ == duration_view(total),
{
    match server.uptime_secs() {
        None => {
            let mut s = String::new();
            push_char(&mut s, '-');
            s
        },
        Some(total) => format_duration(total),
    }
}

} // verus!
