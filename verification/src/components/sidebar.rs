//! The sidebar: every screen, in menu order, with the digit that jumps
//! to it, and under it the facts about this machine that decide how the
//! presets fit.

use vstd::prelude::*;
use vstd::string::*;
use crate::app::{menu_at, menu_index, Screen, SCREEN_COUNT};
use crate::components::command_help::{cut_view, truncate};
use crate::text::{decimal, push_char, push_decimal, strings_view};

verus! {

/// One menu line: the marker on the current screen, the digit that jumps
/// to the screen (its position, counted from one), and its name.
pub open spec fn menu_line_view(screen: Screen, current: Screen) -> Seq<char> {
    seq![' ', if screen == current { '▸' } else { ' ' }, ' '] + decimal(menu_index(screen) + 1)
        + seq![' '] + screen.spec_label()
}

/// The whole menu, in menu order.
pub open spec fn menu_view(current: Screen) -> Seq<Seq<char>> {
    Seq::new(SCREEN_COUNT as nat, |i: int| menu_line_view(menu_at(i as nat), current))
}

/// The menu lines, the current screen marked.
pub fn menu_lines(current: Screen) -> (res: Vec<String>)
    ensures
        strings_view(res@) == menu_view(current),
{
    let mut lines: Vec<String> = Vec::new();
    for i in 0..SCREEN_COUNT
        invariant
            strings_view(lines@) == menu_view(current).subrange(0, i as int),
    {
        let screen = Screen::ALL[i];
        assert(screen == menu_at(i as nat));
        proof {
            crate::app::lemma_menu_positions(screen, i as nat);
        }
        let mut line = String::new();
        push_char(&mut line, ' ');
        push_char(&mut line, if screen == current { '▸' } else { ' ' });
        push_char(&mut line, ' ');
        push_decimal(&mut line, (i + 1) as u64);
        push_char(&mut line, ' ');
        line.append(screen.label());
        assert(menu_index(screen) == i);
        assert(line@ =~= menu_line_view(screen, current));
        let ghost before = strings_view(lines@);
        lines.push(line);
        assert(strings_view(lines@) =~= before.push(line@));
        assert(menu_view(current).subrange(0, i + 1) =~= menu_view(current).subrange(0, i as int).push(
            menu_line_view(screen, current),
        ));
    }
    assert(menu_view(current).subrange(0, SCREEN_COUNT as int) =~= menu_view(current));
    lines
}

/// How wide the GPU's name may run before it is cut.
pub const VALUE_WIDTH: usize = 15;

/// The machine lines under the menu: the tier of the loaded config, the
/// architecture, the GPU (cut to the column), the memory free now and the
/// memory installed. A figure that could not be read is a `?`, never a
/// zero. `free_gib` is the free memory as the sizing prints it (one
/// decimal).
pub open spec fn system_view(
    tier: Option<Seq<char>>,
    arch: Seq<char>,
    gpu: Option<Seq<char>>,
    free_gib: Option<Seq<char>>,
    ram_gib: Option<u64>,
) -> Seq<Seq<char>> {
    seq![
        Seq::<char>::empty(),
        " tier  "@ + match tier {
            Some(t) => t,
            None => "-"@,
        },
        " arch  "@ + arch,
        " GPU   "@ + cut_view(
            match gpu {
                Some(g) => g,
                None => "?"@,
            },
            VALUE_WIDTH as int,
        ),
        " free  "@ + match free_gib {
            Some(f) => f + " GiB"@,
            None => "?"@,
        },
        " RAM   "@ + match ram_gib {
            Some(r) => decimal(r as nat) + " GiB"@,
            None => "?"@,
        },
    ]
}

/// The machine lines under the menu.
pub fn system_lines(
    tier: Option<&str>,
    arch: &str,
    gpu: Option<&str>,
    free_gib: Option<&str>,
    ram_gib: Option<u64>,
) -> (res: Vec<String>)
    ensures
        strings_view(res@) == system_view(
            match tier {
                Some(t) => Some(t@),
                None => None,
            },
            arch@,
            match gpu {
                Some(g) => Some(g@),
                None => None,
            },
            match free_gib {
                Some(f) => Some(f@),
                None => None,
            },
            ram_gib,
        ),
{
    let ghost want = system_view(
        match tier {
            Some(t) => Some(t@),
            None => None,
        },
        arch@,
        match gpu {
            Some(g) => Some(g@),
            None => None,
        },
        match free_gib {
            Some(f) => Some(f@),
            None => None,
        },
        ram_gib,
    );
    let mut lines: Vec<String> = Vec::new();
    lines.push(String::new());
    let mut line = String::from_str(" tier  ");
    match tier {
        Some(t) => line.append(t),
        None => line.append("-"),
    }
    assert(line@ =~= want[1]);
    lines.push(line);
    let mut line = String::from_str(" arch  ");
    line.append(arch);
    assert(line@ =~= want[2]);
    lines.push(line);
    let mut line = String::from_str(" GPU   ");
    let name = match gpu {
        Some(g) => truncate(g, VALUE_WIDTH),
        None => truncate("?", VALUE_WIDTH),
    };
    line.append(name.as_str());
    assert(line@ =~= want[3]);
    lines.push(line);
    let mut line = String::from_str(" free  ");
    match free_gib {
        Some(f) => {
            line.append(f);
            line.append(" GiB");
        },
        None => line.append("?"),
    }
    assert(line@ =~= want[4]);
    lines.push(line);
    let mut line = String::from_str(" RAM   ");
    match ram_gib {
        Some(r) => {
            push_decimal(&mut line, r);
            line.append(" GiB");
        },
        None => line.append("?"),
    }
    assert(line@ =~= want[5]);
    lines.push(line);
    assert(want[0] =~= Seq::<char>::empty());
    assert(strings_view(lines@) =~= want);
    lines
}

} // verus!
