//! The Router screen's rows: llama-server's own multi-model mode, with its
//! two numbers where they can be seen and stepped.

use vstd::prelude::*;
use vstd::string::*;
use crate::app::{opt_chars, LauncherMode, RouterSetting, ServerRuntime, ServerState};
use crate::components::hub::{pad_end, pad_start, push_padded_end, push_padded_start};
use crate::text::{decimal, push_char, strings_view};

verus! {

/// One setting's row: the cursor marker, the key in a column of twenty,
/// the value right-aligned in six, then what the number does.
pub open spec fn setting_line_view(row: RouterSetting, selected: bool) -> Seq<char> {
    seq![if selected { '▸' } else { ' ' }, ' '] + pad_end(row.key@, 20) + seq![' '] + pad_start(
        decimal(row.value as nat) + row.unit@,
        6,
    ) + "   "@ + row.describes@
}

/// One setting's row on the Router screen.
pub fn setting_line(row: &RouterSetting, selected: bool) -> (res: String)
    ensures
        res@ == setting_line_view(*row, selected),
{
    let mut line = String::new();
    push_char(&mut line, if selected { '▸' } else { ' ' });
    push_char(&mut line, ' ');
    push_padded_end(&mut line, row.key, 20);
    push_char(&mut line, ' ');
    let value = row.value_label();
    push_padded_start(&mut line, value.as_str(), 6);
    line.append("   ");
    line.append(row.describes);
    assert(line@ =~= setting_line_view(*row, selected));
    line
}

/// A labelled status line: the label in a column of twelve, then the
/// value.
pub open spec fn status_field(label: Seq<char>, value: Seq<char>) -> Seq<char> {
    "  "@ + pad_end(label, 12) + value
}

/// What the state line says. The supervised process is reported **only
/// when it is the router**: its state's label, the phase of a start when
/// there is one, and how long it has been in that state. A single preset
/// serving is not this screen's business, and showing it as the state
/// would say the router was up when it is not.
pub open spec fn router_state_view(
    mode: LauncherMode,
    state: ServerState,
    model: Option<Seq<char>>,
    state_label: Seq<char>,
    phase: Option<Seq<char>>,
    elapsed: Option<Seq<char>>,
) -> Seq<char> {
    if mode == LauncherMode::Router {
        state_label + match phase {
            Some(p) => "  "@ + p,
            None => Seq::empty(),
        } + match elapsed {
            Some(e) => "  "@ + e,
            None => Seq::empty(),
        }
    } else if state.spec_is_live() {
        "not running — "@ + match model {
            Some(m) => m,
            None => "something"@,
        } + " is serving a single preset"@
    } else {
        "not running"@
    }
}

/// The Router screen's status lines: the state, the presets file, the
/// endpoint (only the router's own), and a blank line.
pub open spec fn router_status_view(
    mode: LauncherMode,
    state: ServerState,
    model: Option<Seq<char>>,
    endpoint: Option<Seq<char>>,
    state_label: Seq<char>,
    phase: Option<Seq<char>>,
    elapsed: Option<Seq<char>>,
    presets: Seq<char>,
) -> Seq<Seq<char>> {
    seq![
        "  state     "@ + router_state_view(mode, state, model, state_label, phase, elapsed),
        status_field("presets"@, presets),
        status_field(
            "endpoint"@,
            if mode == LauncherMode::Router {
                match endpoint {
                    Some(e) => e,
                    None => "-"@,
                }
            } else {
                "-"@
            },
        ),
        Seq::<char>::empty(),
    ]
}

/// The Router screen's status lines for the supervised process in
/// `runtime`, the phase's name included. `state_label` is its state's
/// name as the supervisor gives it; `elapsed`
/// is the time in the state (`ServerRuntime::elapsed_label`) and
/// `presets` the path of the loaded config.
pub fn router_status(
    runtime: &ServerRuntime,
    state_label: &str,
    elapsed: Option<&str>,
    presets: &str,
) -> (res: Vec<String>)
    ensures
        strings_view(res@) == router_status_view(
            runtime.mode,
            runtime.state,
            opt_chars(runtime.model),
            opt_chars(runtime.endpoint),
            state_label@,
            opt_chars(runtime.phase.label),
            match elapsed {
                Some(e) => Some(e@),
                None => None,
            },
            presets@,
        ),
{
    let ghost want = router_status_view(
        runtime.mode,
        runtime.state,
        opt_chars(runtime.model),
        opt_chars(runtime.endpoint),
        state_label@,
        opt_chars(runtime.phase.label),
        match elapsed {
            Some(e) => Some(e@),
            None => None,
        },
        presets@,
    );
    let is_router = match runtime.mode {
        LauncherMode::Router => true,
        _ => false,
    };
    let mut state = String::from_str("  state     ");
    if is_router {
        state.append(state_label);
        match &runtime.phase.label {
            Some(p) => {
                state.append("  ");
                state.append(p.as_str());
            },
            None => {},
        }
        match elapsed {
            Some(e) => {
                state.append("  ");
                state.append(e);
            },
            None => {},
        }
    } else if runtime.state.is_live() {
        state.append("not running — ");
        match &runtime.model {
            Some(m) => state.append(m.as_str()),
            None => state.append("something"),
        }
        state.append(" is serving a single preset");
    } else {
        state.append("not running");
    }
    assert(state@ =~= want[0]);
    let mut lines: Vec<String> = Vec::new();
    lines.push(state);
    let mut line = String::from_str("  ");
    push_padded_end(&mut line, "presets", 12);
    line.append(presets);
    assert(line@ =~= want[1]);
    lines.push(line);
    let mut line = String::from_str("  ");
    push_padded_end(&mut line, "endpoint", 12);
    if is_router {
        match &runtime.endpoint {
            Some(e) => line.append(e.as_str()),
            None => line.append("-"),
        }
    } else {
        line.append("-");
    }
    assert(line@ =~= want[2]);
    lines.push(line);
    lines.push(String::new());
    assert(want[3] =~= Seq::<char>::empty());
    assert(strings_view(lines@) =~= want);
    lines
}

} // verus!
