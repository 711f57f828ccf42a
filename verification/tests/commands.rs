use herd::commands::{all, find, in_group, visible, Group, Handler};

#[test]
fn every_command_is_findable_by_its_first_token() {
    for command in all() {
        assert_eq!(
            find(command.probe).map(|found| found.name),
            Some(command.name),
            "{} does not resolve from its own probe",
            command.name
        );
    }
    assert!(find("nonsense").is_none());
    assert!(find("").is_none());
}

#[test]
fn a_usage_line_begins_with_its_own_command() {
    for command in all() {
        assert!(
            command.usage.starts_with(command.name),
            "{} is documented as {:?}",
            command.name,
            command.usage
        );
    }
}

#[test]
fn a_name_is_never_listed_twice() {
    let mut seen: Vec<&str> = Vec::new();
    for command in all() {
        assert!(!seen.contains(&command.name), "{} listed twice", command.name);
        seen.push(command.name);
    }
}

#[test]
fn every_group_lists_something() {
    for group in Group::ALL {
        assert!(in_group(group).len() > 0, "{:?} has no commands", group.label());
    }
    assert_eq!(
        visible().len() + 1,
        all().len(),
        "exactly one command (launch!) is hidden"
    );
}

#[test]
fn find_matches_on_the_first_word_only() {
    let launch = find("  launch gemma4-12b -- --ctx-size 4096").expect("launch");
    assert_eq!(launch.name, "launch");
    assert_eq!(launch.handler, Handler::Launcher);
    assert_eq!(find("sh ls -la").map(|c| c.name), Some("sh"));
    assert!(find("launchx").is_none(), "a prefix of a name is not the name");
    assert!(find("   \t ").is_none());
}

#[test]
fn the_forced_launch_is_hidden_and_everything_else_is_visible() {
    let forced = find("launch! gemma").expect("launch!");
    assert!(forced.hidden);
    assert!(visible().iter().all(|c| !c.hidden));
    assert!(visible().iter().all(|c| c.name != "launch!"));
}

#[test]
fn groups_partition_the_visible_commands() {
    let mut total = 0;
    for group in Group::ALL {
        let members = in_group(group);
        assert!(members.iter().all(|c| c.group == group && !c.hidden));
        total += members.len();
    }
    assert_eq!(total, visible().len());
    assert_eq!(Group::Server.label(), "llama-server");
    assert_eq!(Group::Config.label(), "models.ini");
    assert_eq!(Group::Other.label(), "other");
}

#[test]
fn a_cut_short_name_finds_nothing() {
    assert!(find("laun").is_none());
    assert_eq!(find("sh true").map(|c| c.name), Some("sh"));
    assert_eq!(find("launch!").map(|c| c.name), Some("launch!"));
}
