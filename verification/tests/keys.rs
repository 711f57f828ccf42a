use herd::app::Screen;
use herd::keys::{
    documents, for_screen, global, global_hint, hint_for, screen_hint, screen_hint_within, token,
    Key,
};

#[test]
fn every_screen_documents_something() {
    for screen in Screen::ALL {
        assert!(!for_screen(screen).is_empty(), "{screen:?} has no documented bindings");
    }
}

#[test]
fn no_screen_binding_shadows_a_global_one() {
    let globals = global();
    for screen in Screen::ALL {
        for binding in for_screen(screen) {
            for key in binding.keys {
                assert!(
                    !globals.iter().any(|g| g.keys.contains(key)),
                    "{screen:?} binds {key:?}, which is already global"
                );
            }
        }
    }
}

#[test]
fn a_screen_never_binds_the_same_key_twice() {
    for screen in Screen::ALL {
        let mut seen: Vec<&str> = Vec::new();
        for binding in for_screen(screen) {
            for key in binding.keys {
                assert!(!seen.contains(key), "{screen:?} binds {key:?} twice");
                seen.push(key);
            }
        }
    }
}

#[test]
fn hints_name_the_keys_they_describe() {
    let hint = screen_hint(Screen::Models);
    assert!(hint.contains("enter launch"), "{hint}");
    assert!(hint.contains("t/T tier"), "{hint}");
    assert!(global_hint().contains("q quit"));
}

#[test]
fn a_footer_never_overflows_the_pane_it_is_drawn_in() {
    for screen in Screen::ALL {
        for width in 0..=140 {
            let hint = screen_hint_within(screen, width);
            assert!(
                hint.chars().count() <= width,
                "{screen:?} at {width}: {} chars — {hint}",
                hint.chars().count()
            );
        }
    }
    assert!(global_hint().chars().count() <= 100);
}

#[test]
fn a_shortened_footer_says_there_is_more() {
    let full = screen_hint(Screen::Models);
    let width = full.chars().count() - 1;
    let fitted = screen_hint_within(Screen::Models, width);

    assert_ne!(fitted, full, "nothing was dropped at all");
    assert!(fitted.ends_with('…'), "{fitted}");
    assert_eq!(screen_hint_within(Screen::Models, 3), "…");
}

#[test]
fn a_wide_pane_keeps_every_hint() {
    for screen in Screen::ALL {
        let full = screen_hint(screen);
        assert_eq!(screen_hint_within(screen, 200), full, "{screen:?}");
        assert!(!full.contains('…'));
    }
}

#[test]
fn tokens_round_trip_through_the_table() {
    let enter = token(Key::Enter).expect("enter");
    assert!(documents(Screen::Models, &enter));
    assert!(!documents(Screen::Logs, &enter));

    let back = token(Key::BackTab).expect("backtab");
    assert!(documents(Screen::Logs, &back), "globals apply everywhere");
}

#[test]
fn a_pane_with_no_room_shows_nothing() {
    for screen in Screen::ALL {
        assert_eq!(screen_hint_within(screen, 0), "");
    }
}

#[test]
fn keys_have_canonical_names() {
    assert_eq!(token(Key::Char('q')).as_deref(), Some("q"));
    assert_eq!(token(Key::Char('Q')).as_deref(), Some("Q"));
    assert_eq!(token(Key::Tab).as_deref(), Some("tab"));
    assert_eq!(token(Key::PageUp).as_deref(), Some("pgup"));
    assert_eq!(token(Key::PageDown).as_deref(), Some("pgdn"));
    assert_eq!(token(Key::Esc).as_deref(), Some("esc"));
    assert_eq!(token(Key::Other), None);
}

#[test]
fn a_hint_names_the_binding_of_a_key() {
    assert_eq!(hint_for(Screen::Models, "y").as_deref(), Some("y copy"));
    assert_eq!(hint_for(Screen::Models, "no-such-key"), None);
}
