use herd::components::opencode::{desired_width, fits, overlay_lines, too_short, FOOTER};

const PATH: &str = "~/.config/opencode/opencode.json";

fn block() -> String {
    [
        "{",
        "  \"llama.cpp\": {",
        "    \"npm\": \"@ai-sdk/openai-compatible\",",
        "    \"options\": { \"baseURL\": \"http://127.0.0.1:1234/v1\" },",
        "    \"models\": { \"gemma4-12b\": { \"tool_call\": true } }",
        "  }",
        "}",
    ]
    .join("\n")
}

#[test]
fn the_overlay_carries_the_block_its_path_and_the_copy_key() {
    let json = block();
    let width = desired_width(&json, PATH) as usize;
    let text = overlay_lines(&json, PATH, width).join("\n");

    assert!(text.contains(PATH), "{text}");
    assert!(text.contains("@ai-sdk/openai-compatible"), "{text}");
    assert!(text.contains("http://127.0.0.1:1234/v1"), "{text}");
    assert!(text.contains("gemma4-12b"), "{text}");
    assert!(text.contains("y copy"), "{text}");
}

#[test]
fn nothing_is_cut_at_the_width_the_box_asked_for() {
    let json = block();
    let width = desired_width(&json, PATH) as usize;
    assert!(!overlay_lines(&json, PATH, width.saturating_sub(2)).join("\n").contains('…'));
}

#[test]
fn a_terminal_too_short_for_the_block_says_so_rather_than_cutting_it() {
    let json = block();
    let width = desired_width(&json, PATH) as usize - 2;
    let rows = overlay_lines(&json, PATH, width).len();
    assert_eq!(rows, 7 + 6);

    assert!(fits(&json, PATH, width, 40), "40 rows is room enough");
    assert!(fits(&json, PATH, width, 15), "exactly enough");
    assert!(!fits(&json, PATH, width, 14), "one row short");

    let text = too_short(&json, PATH, width).join("\n");
    assert!(text.contains("needs 15 rows"), "the height is not named: {text}");
    assert!(text.contains("y copy"), "no way out is offered: {text}");
}

#[test]
fn opencode_a_narrow_box_elides_visibly_and_never_overflows() {
    let json = block();
    let full = desired_width(&json, PATH) as usize;
    for width in 0..=full {
        for line in overlay_lines(&json, PATH, width) {
            assert!(
                line.chars().count() <= width,
                "a {}-character row in a {width}-wide box: {line}",
                line.chars().count()
            );
        }
        for line in too_short(&json, PATH, width) {
            assert!(line.chars().count() <= width);
        }
    }
}

#[test]
fn the_box_is_as_wide_as_its_longest_line() {
    let json = block();
    let longest = block().lines().map(|l| l.chars().count()).max().unwrap();
    assert_eq!(desired_width(&json, PATH) as usize, 2 + longest + 3);
    assert_eq!(desired_width("{}", PATH) as usize, 2 + "add to ".len() + PATH.len() + 3);
    assert_eq!(desired_width("", "x"), (2 + FOOTER.chars().count() + 3) as u16);
}
