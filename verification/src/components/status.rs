//! The status bar: how long the server has been in its state, and which
//! keys mean something in the current input mode.

use vstd::prelude::*;
use vstd::string::*;
use crate::app::{clock_view, Mode, ServerRuntime, ServerState};
use crate::keys::{briefs, global_hint, global_view, join_view};

verus! {

/// The word in front of the clock: what the time in the current state
/// means, for the states where it means anything.
pub open spec fn elapsed_prefix(state: ServerState) -> Option<Seq<char>> {
    match state {
        ServerState::Starting => Some("waiting "@),
        ServerState::Serving => Some("up "@),
        _ => None,
    }
}

/// Time in the current state, labelled by what that time *means*: waiting
/// while starting, uptime once serving. Nothing for the other states, and
/// nothing when no clock is running. The figure itself is read from the
/// clock, so the contract says only that it is some `mm:ss`.
pub fn elapsed(server: &ServerRuntime) -> (res: Option<String>)
    ensures
        res is Some <==> (server.started_at is Some && elapsed_prefix(server.state) is Some),
        res matches Some(text) ==> exists|total: nat|
            text@ == elapsed_prefix(server.state)->0 + clock_view(total),
{
    let label = server.elapsed_label();
    match label {
        None => None,
        Some(clock) => {
            proof {
                let total = choose|total: nat| clock@ == clock_view(total);
                assert(clock@ == clock_view(total));
            }
            match server.state {
                ServerState::Starting => {
                    let mut text = String::from_str("waiting ");
                    text.append(clock.as_str());
                    Some(text)
                },
                ServerState::Serving => {
                    let mut text = String::from_str("up ");
                    text.append(clock.as_str());
                    Some(text)
                },
                _ => None,
            }
        },
    }
}

/// What the status bar says the keys do in each input mode.
pub open spec fn hint_view(mode: Mode) -> Seq<char> {
    match mode {
        Mode::Command => "enter run · esc cancel"@,
        Mode::Filter => "type to filter · enter keep · esc clear"@,
        Mode::EditSetting => "enter save · esc cancel"@,
        Mode::EditPrompt => "enter use prompt · esc cancel"@,
        Mode::Picker => "enter select config · esc cancel"@,
        Mode::ConfirmLaunch => "y launch anyway · any other key cancel"@,
        Mode::ConfirmQuit => "y quit anyway · any other key stay"@,
        Mode::ConfirmDelete => "y delete · any other key cancel"@,
        Mode::Help => "any key closes the help"@,
        Mode::Commands => "any key closes the command list"@,
        Mode::About => "any key closes this"@,
        Mode::Browse => join_view(briefs(global_view())),
    }
}

/// The status bar's hint for the current input mode. While browsing it is
/// the global keys only: the screen's own keys are in its footer, and both
/// come from the same table.
pub fn hint(mode: Mode) -> (res: String)
    ensures
        res@ == hint_view(mode),
{
    match mode {
        Mode::Command => String::from_str("enter run · esc cancel"),
        Mode::Filter => String::from_str("type to filter · enter keep · esc clear"),
        Mode::EditSetting => String::from_str("enter save · esc cancel"),
        Mode::EditPrompt => String::from_str("enter use prompt · esc cancel"),
        Mode::Picker => String::from_str("enter select config · esc cancel"),
        Mode::ConfirmLaunch => String::from_str("y launch anyway · any other key cancel"),
        Mode::ConfirmQuit => String::from_str("y quit anyway · any other key stay"),
        Mode::ConfirmDelete => String::from_str("y delete · any other key cancel"),
        Mode::Help => String::from_str("any key closes the help"),
        Mode::Commands => String::from_str("any key closes the command list"),
        Mode::About => String::from_str("any key closes this"),
        Mode::Browse => global_hint(),
    }
}

} // verus!
