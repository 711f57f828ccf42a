//! What the quit prompt says is at stake: the model being served, or how
//! many the router may be holding.

use vstd::prelude::*;
use vstd::string::*;
use crate::app::{LauncherMode, PendingDelete, ServerRuntime, ServerState};
use crate::components::hub::{human_bytes, human_bytes_view};
use crate::components::models::{truncate, truncate_view};
use crate::text::{chars_of, decimal, push_decimal, string_of, strings_view};

verus! {

/// `up to 1 model`, `up to 3 models`.
pub open spec fn model_count_view(count: nat) -> Seq<char> {
    if count == 1 {
        "up to 1 model"@
    } else {
        "up to "@ + decimal(count) + " models"@
    }
}

/// How many models the router keeps, with the noun in the right number.
pub fn model_count(count: u32) -> (res: String)
    ensures
        res@ == model_count_view(count as nat),
{
    if count == 1 {
        return string_of(chars_of("up to 1 model").as_slice());
    }
    let mut out = string_of(chars_of("up to ").as_slice());
    push_decimal(&mut out, count as u64);
    out.append(" models");
    out
}

/// The model a sentence names: the supervised one, cut to 18 columns, or
/// a placeholder when none is known.
pub open spec fn named_model(model: Option<Seq<char>>) -> Seq<char> {
    truncate_view(
        match model {
            Some(m) => m,
            None => "unknown model"@,
        },
        18,
    )
}

/// One sentence on what quitting would end, for each lifecycle state and
/// launch mode.
pub open spec fn serving_summary_view(
    state: ServerState,
    mode: LauncherMode,
    model: Option<Seq<char>>,
    models_max: nat,
) -> Seq<char> {
    let name = named_model(model);
    match (state, mode) {
        (ServerState::Starting, LauncherMode::Manual) => "Model '"@ + name
            + "' is currently starting."@,
        (ServerState::Serving, LauncherMode::Manual) => "Model '"@ + name
            + "' is currently being served."@,
        (ServerState::Stopping, LauncherMode::Manual) => "Model '"@ + name
            + "' is currently stopping."@,
        (ServerState::Starting, LauncherMode::Router) => "Router mode is starting; it can keep "@
            + model_count_view(models_max) + " loaded."@,
        (ServerState::Serving, LauncherMode::Router) => "Router mode is active; it can keep "@
            + model_count_view(models_max) + " loaded."@,
        (ServerState::Stopping, LauncherMode::Router) => "Router mode is stopping; "@
            + model_count_view(models_max) + " may still be loaded."@,
        (ServerState::Error(_), LauncherMode::Manual) => "No model is currently served; the last launch of '"@
            + name + "' failed."@,
        (ServerState::Error(_), LauncherMode::Router) => "No models are currently served; router mode failed."@,
        _ => "No model is currently being served."@,
    }
}

/// What the quit prompt says about the server.
///
/// Manual mode names the one model the launcher supervises. Router mode
/// reports its configured resident limit rather than claiming an exact
/// loaded count: llama-server owns that list and does not send it with
/// lifecycle snapshots.
pub fn serving_summary(server: &ServerRuntime, models_max: u32) -> (res: String)
    ensures
        res@ == serving_summary_view(
            server.state,
            server.mode,
            match server.model {
                Some(m) => Some(m@),
                None => None,
            },
            models_max as nat,
        ),
{
    let model = match &server.model {
        Some(m) => truncate(m.as_str(), 18),
        None => truncate("unknown model", 18),
    };
    let mut out = String::new();
    match (&server.state, server.mode) {
        (ServerState::Starting, LauncherMode::Manual) => {
            out.append("Model '");
            out.append(model.as_str());
            out.append("' is currently starting.");
        },
        (ServerState::Serving, LauncherMode::Manual) => {
            out.append("Model '");
            out.append(model.as_str());
            out.append("' is currently being served.");
        },
        (ServerState::Stopping, LauncherMode::Manual) => {
            out.append("Model '");
            out.append(model.as_str());
            out.append("' is currently stopping.");
        },
        (ServerState::Starting, LauncherMode::Router) => {
            out.append("Router mode is starting; it can keep ");
            out.append(model_count(models_max).as_str());
            out.append(" loaded.");
        },
        (ServerState::Serving, LauncherMode::Router) => {
            out.append("Router mode is active; it can keep ");
            out.append(model_count(models_max).as_str());
            out.append(" loaded.");
        },
        (ServerState::Stopping, LauncherMode::Router) => {
            out.append("Router mode is stopping; ");
            out.append(model_count(models_max).as_str());
            out.append(" may still be loaded.");
        },
        (ServerState::Error(_), LauncherMode::Manual) => {
            out.append("No model is currently served; the last launch of '");
            out.append(model.as_str());
            out.append("' failed.");
        },
        (ServerState::Error(_), LauncherMode::Router) => {
            out.append("No models are currently served; router mode failed.");
        },
        _ => {
            out.append("No model is currently being served.");
        },
    }
    out
}

/// Appends one line.
fn push_line(lines: &mut Vec<String>, line: String)
    ensures
        strings_view(final(lines)@) == strings_view(old(lines)@).push(line@),
{
    lines.push(line);
    assert(strings_view(lines@) =~= strings_view(old(lines)@).push(line@));
}

/// A line indented into the box.
fn indented(text: &str) -> (res: String)
    ensures
        res@ == "  "@ + text@,
{
    let mut line = String::from_str("  ");
    line.append(text);
    line
}

/// The items of the abandon list, each on a bulleted line.
pub open spec fn bullets(work: Seq<Seq<char>>) -> Seq<Seq<char>> {
    work.map_values(|item: Seq<char>| "    · "@ + item)
}

/// The quit prompt: which supervised server will stop, what else would be
/// abandoned (and that a download is the one item that comes back), and
/// how to proceed anyway.
pub open spec fn quit_lines_view(
    summary: Seq<char>,
    live: bool,
    work: Seq<Seq<char>>,
    downloading: bool,
) -> Seq<Seq<char>> {
    seq![Seq::empty(), "  Quit HERD?"@, "  "@ + summary] + (if work.len() > 0 {
        seq![Seq::empty(), "  Quitting now would also abandon:"@] + bullets(work) + (if downloading {
            seq!["    the download resumes from where it stopped"@]
        } else {
            Seq::empty()
        })
    } else {
        Seq::empty()
    }) + seq![
        Seq::empty(),
        if live {
            "  The supervised server will be stopped on exit."@
        } else {
            "  No supervised server needs to be stopped on exit."@
        },
        "  Confirm quit?   [y] yes   [any other key] stay"@,
    ]
}

/// The quit prompt's text, apart from the drawing of it. `work` is what
/// quitting would abandon, and `downloading` whether a download is among it.
pub fn quit_lines(server: &ServerRuntime, models_max: u32, work: &Vec<String>, downloading: bool) -> (res: Vec<String>)
    ensures
        strings_view(res@) == quit_lines_view(
            serving_summary_view(
                server.state,
                server.mode,
                match server.model {
                    Some(m) => Some(m@),
                    None => None,
                },
                models_max as nat,
            ),
            server.state.spec_is_live(),
            strings_view(work@),
            downloading,
        ),
{
    let summary = serving_summary(server, models_max);
    let mut lines: Vec<String> = Vec::new();
    push_line(&mut lines, String::new());
    push_line(&mut lines, String::from_str("  Quit HERD?"));
    push_line(&mut lines, indented(summary.as_str()));
    let ghost head = strings_view(lines@);
    let ghost items = bullets(strings_view(work@));
    if work.len() > 0 {
        push_line(&mut lines, String::new());
        push_line(&mut lines, String::from_str("  Quitting now would also abandon:"));
        let ghost opened = strings_view(lines@);
        for i in 0..work.len()
            invariant
                items == bullets(strings_view(work@)),
                strings_view(lines@) == opened + items.subrange(0, i as int),
        {
            let mut line = String::from_str("    · ");
            line.append(work[i].as_str());
            push_line(&mut lines, line);
            assert(items.subrange(0, i + 1) =~= items.subrange(0, i as int).push(items[i as int]));
        }
        assert(items.subrange(0, items.len() as int) =~= items);
        if downloading {
            push_line(&mut lines, String::from_str("    the download resumes from where it stopped"));
        }
    }
    let ghost middle = strings_view(lines@);
    push_line(&mut lines, String::new());
    if server.state.is_live() {
        push_line(&mut lines, String::from_str("  The supervised server will be stopped on exit."));
    } else {
        push_line(&mut lines, String::from_str("  No supervised server needs to be stopped on exit."));
    }
    push_line(&mut lines, String::from_str("  Confirm quit?   [y] yes   [any other key] stay"));
    assert(strings_view(lines@) =~= quit_lines_view(
        summary@,
        server.state.spec_is_live(),
        strings_view(work@),
        downloading,
    ));
    lines
}

/// The delete prompt: what goes, how much of it, and what goes with it —
/// a prompt that took a second model silently would not have asked the
/// question the user answered — and that it cannot be undone.
pub open spec fn delete_lines_view(pending: PendingDelete) -> Seq<Seq<char>> {
    let size = match pending.bytes {
        Some(b) => human_bytes_view(b as nat),
        None => "an unknown amount"@,
    };
    seq![
        Seq::empty(),
        "  Delete "@ + pending.repo@ + " from the model cache?"@,
        "  This frees "@ + size + " and cannot be undone."@,
    ] + pending.also_removes@.map_values(|also: String| "  It also removes "@ + also@) + seq![
        "  Re-downloading it later is the only way back."@,
        Seq::empty(),
        "  Delete?   [y] yes   [any other key] cancel"@,
    ]
}

/// The delete prompt's text.
pub fn delete_lines(pending: &PendingDelete) -> (res: Vec<String>)
    ensures
        strings_view(res@) == delete_lines_view(*pending),
{
    let size = match pending.bytes {
        Some(b) => human_bytes(b),
        None => String::from_str("an unknown amount"),
    };
    let mut lines: Vec<String> = Vec::new();
    push_line(&mut lines, String::new());
    let mut what = String::from_str("  Delete ");
    what.append(pending.repo.as_str());
    what.append(" from the model cache?");
    push_line(&mut lines, what);
    let mut frees = String::from_str("  This frees ");
    frees.append(size.as_str());
    frees.append(" and cannot be undone.");
    push_line(&mut lines, frees);
    let ghost opened = strings_view(lines@);
    let ghost items = pending.also_removes@.map_values(|also: String| "  It also removes "@ + also@);
    for i in 0..pending.also_removes.len()
        invariant
            items == pending.also_removes@.map_values(|also: String| "  It also removes "@ + also@),
            strings_view(lines@) == opened + items.subrange(0, i as int),
    {
        let mut line = String::from_str("  It also removes ");
        line.append(pending.also_removes[i].as_str());
        push_line(&mut lines, line);
        assert(items.subrange(0, i + 1) =~= items.subrange(0, i as int).push(items[i as int]));
    }
    assert(items.subrange(0, items.len() as int) =~= items);
    push_line(&mut lines, String::from_str("  Re-downloading it later is the only way back."));
    push_line(&mut lines, String::new());
    push_line(&mut lines, String::from_str("  Delete?   [y] yes   [any other key] cancel"));
    assert(strings_view(lines@) =~= delete_lines_view(*pending));
    lines
}

} // verus!
