use lcore::stage::BuildStage;

fn command(items: &[&str]) -> Vec<String> {
    items.iter().map(|s| s.to_string()).collect()
}

#[test]
fn stage_without_commands_is_valid() {
    let stage = BuildStage { name: "empty".to_string(), commands: Vec::new() };
    assert!(stage.is_valid());
}

#[test]
fn stage_with_commands_is_valid() {
    let stage = BuildStage {
        name: "debug".to_string(),
        commands: vec![command(&["cc", "-c", "a.c"]), command(&["ld"])],
    };
    assert!(stage.is_valid());
}

#[test]
fn stage_with_an_empty_command_is_not_valid() {
    let stage = BuildStage {
        name: "broken".to_string(),
        commands: vec![command(&["cc"]), command(&[]), command(&["ld"])],
    };
    assert!(!stage.is_valid());
    let last = BuildStage { name: "broken".to_string(), commands: vec![command(&[])] };
    assert!(!last.is_valid());
}
