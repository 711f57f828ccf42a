use herd::app::Screen;
use herd::components::Rect;
use herd::layout::{page_of, inner, list, main, page_rows, preview_viewport, rows_with_footer, server, with_preview};

fn terminal(width: u16, height: u16) -> Rect {
    Rect { x: 0, y: 0, width, height }
}

#[test]
fn every_screen_gets_a_sane_page_from_the_shared_layout() {
    for screen in Screen::ALL {
        let page = page_rows(screen, terminal(120, 40));
        assert!(page >= 3, "{screen:?} collapsed to a {page}-row page");
    }
}

#[test]
fn a_page_follows_the_terminal_height() {
    let short = page_rows(Screen::Models, terminal(120, 24));
    let tall = page_rows(Screen::Models, terminal(120, 60));
    assert!(tall > short, "a taller terminal must page further: {short} vs {tall}");
}

#[test]
fn a_tiny_terminal_still_pages_by_something() {
    for screen in Screen::ALL {
        assert!(page_rows(screen, terminal(120, 1)) >= 3);
        assert!(page_rows(screen, terminal(0, 0)) >= 3);
    }
}

#[test]
fn the_screen_is_cut_into_sidebar_body_command_bar_and_status_line() {
    let areas = main(terminal(120, 40));
    assert_eq!(areas.sidebar, Rect { x: 0, y: 0, width: 24, height: 36 });
    assert_eq!(areas.main, Rect { x: 24, y: 0, width: 96, height: 36 });
    assert_eq!(areas.command, Rect { x: 0, y: 36, width: 120, height: 3 });
    assert_eq!(areas.status, Rect { x: 0, y: 39, width: 120, height: 1 });
}

#[test]
fn each_screen_pages_by_its_own_list() {
    let t = terminal(120, 40);
    assert_eq!(page_rows(Screen::Models, t), 22);
    assert_eq!(page_rows(Screen::Hub, t), 30);
    assert_eq!(page_rows(Screen::Settings, t), 26);
    assert_eq!(page_rows(Screen::Logs, t), 32);
    assert_eq!(page_rows(Screen::Router, t), 3);
    assert_eq!(page_rows(Screen::Server, t), 3);
}

#[test]
fn only_the_models_and_router_screens_have_a_preview() {
    let t = terminal(120, 40);
    assert_eq!(preview_viewport(Screen::Models, t), Some((94, 6)));
    assert_eq!(preview_viewport(Screen::Router, t), Some((94, 6)));
    assert_eq!(preview_viewport(Screen::Logs, t), None);
    assert_eq!(preview_viewport(Screen::Hub, t), None);
}

#[test]
fn a_list_keeps_its_header_and_footer() {
    let areas = list(Rect { x: 1, y: 1, width: 94, height: 26 }, 1, 2);
    assert_eq!(areas.header, Rect { x: 1, y: 1, width: 94, height: 1 });
    assert_eq!(areas.rows, Rect { x: 1, y: 2, width: 94, height: 23 });
    assert_eq!(areas.footer, Rect { x: 1, y: 25, width: 94, height: 2 });

    let split = with_preview(Rect { x: 24, y: 0, width: 96, height: 36 });
    assert_eq!(split.second.height, 8);
    assert_eq!(split.first.height, 28);
    let split = server(Rect { x: 0, y: 0, width: 80, height: 30 });
    assert_eq!((split.first.height, split.second.height), (10, 20));
}

#[test]
fn an_inner_area_loses_its_border() {
    assert_eq!(
        inner(Rect { x: 2, y: 3, width: 10, height: 5 }, 1, 1),
        Rect { x: 3, y: 4, width: 8, height: 3 }
    );
    assert_eq!(
        inner(Rect { x: 2, y: 3, width: 1, height: 5 }, 1, 1),
        Rect { x: 0, y: 0, width: 0, height: 0 }
    );
}

#[test]
fn a_page_is_a_screenful_less_one_row_and_never_under_three() {
    assert_eq!(page_of(Screen::Models, 23), 22);
    assert_eq!(page_of(Screen::Logs, 33), 32);
    assert_eq!(page_of(Screen::Settings, 33), 26);
    assert_eq!(page_of(Screen::Settings, 8), 3);
    assert_eq!(page_of(Screen::Hub, 0), 3);
    assert_eq!(page_of(Screen::Router, 500), 3);
    assert_eq!(page_of(Screen::Stats, 500), 3);
}

#[test]
fn a_frame_off_the_origin_keeps_its_offsets() {
    let areas = main(Rect { x: 3, y: 2, width: 80, height: 20 });
    assert_eq!(areas.sidebar, Rect { x: 3, y: 2, width: 24, height: 16 });
    assert_eq!(areas.main, Rect { x: 27, y: 2, width: 56, height: 16 });
    assert_eq!(areas.command, Rect { x: 3, y: 18, width: 80, height: 3 });
    assert_eq!(areas.status, Rect { x: 3, y: 21, width: 80, height: 1 });
    let split = rows_with_footer(Rect { x: 1, y: 5, width: 30, height: 9 }, 2);
    assert_eq!(split.first, Rect { x: 1, y: 5, width: 30, height: 7 });
    assert_eq!(split.second, Rect { x: 1, y: 12, width: 30, height: 2 });
}

#[test]
fn the_models_page_is_the_terminal_less_its_fixed_rows() {
    for height in [18u16, 24, 40, 60] {
        assert_eq!(page_rows(Screen::Models, terminal(120, height)), (height as usize - 18).max(3));
    }
    assert_eq!(preview_viewport(Screen::Models, terminal(80, 15)), Some((54, 6)));
}
