use river_init::command::{CommandSpec, ExecutionMode, Task};
use river_init::plan::{
    all_tags_commands, startup_plan, tag_commands, tag_mask, theme_commands, words, PLAN_LEN,
};
use river_init::run::{Run, Step};
use river_init::scan::ProcEntry;
use river_init::supervisor::restart_targets;

fn strs(v: &[String]) -> Vec<&str> {
    v.iter().map(|s| s.as_str()).collect()
}

#[test]
fn tag_masks() {
    assert_eq!(tag_mask(1), 1);
    assert_eq!(tag_mask(3), 4);
    assert_eq!(tag_mask(9), 256);
    assert_eq!(tag_mask(32), 2147483648);
}

#[test]
fn tag_three_bindings() {
    let lines = tag_commands(3);
    assert_eq!(lines.len(), 4);
    assert_eq!(strs(&lines[0]), vec!["map", "normal", "Super", "3", "set-focused-tags", "4"]);
    assert_eq!(strs(&lines[1]), vec!["map", "normal", "Super+Shift", "3", "set-view-tags", "4"]);
    assert_eq!(
        strs(&lines[2]),
        vec!["map", "normal", "Super+Control", "3", "toggle-focused-tags", "4"]
    );
    assert_eq!(
        strs(&lines[3]),
        vec!["map", "normal", "Super+Shift+Control", "3", "toggle-view-tags", "4"]
    );
}

#[test]
fn tag_nine_mask() {
    let lines = tag_commands(9);
    for line in &lines {
        assert_eq!(line[3], "9");
        assert_eq!(line[5], "256");
    }
}

#[test]
fn all_tags_binding() {
    let lines = all_tags_commands();
    assert_eq!(
        strs(&lines[0]),
        vec!["map", "normal", "Super", "0", "set-focused-tags", "4294967295"]
    );
    assert_eq!(
        strs(&lines[1]),
        vec!["map", "normal", "Super+Shift", "0", "set-view-tags", "4294967295"]
    );
}

#[test]
fn theme_colours() {
    let lines = theme_commands();
    assert_eq!(strs(&lines[0]), vec!["background-color", "0x24273A"]);
    assert_eq!(strs(&lines[1]), vec!["border-color-focused", "0xF0C6C6"]);
    assert_eq!(strs(&lines[2]), vec!["border-color-unfocused", "0x24273A"]);
    assert_eq!(strs(&lines[3]), vec!["border-color-urgent", "0xED8796"]);
    assert_eq!(strs(&lines[4]), vec!["border-width", "5"]);
}

#[test]
fn plan_layout() {
    let settings = vec![words(&["set-repeat", "50", "300"]), words(&["attach-mode", "bottom"])];
    let plan = startup_plan(settings);
    assert_eq!(plan.len(), PLAN_LEN);
    let config = &plan[0].tasks;
    assert_eq!(config.len(), 7);
    for t in config {
        assert_eq!(t.command().binary, "riverctl");
        assert_eq!(t.launch_mode(), ExecutionMode::WaitForExit);
        assert!(!t.is_restart());
    }
    assert_eq!(strs(&config[5].command().args), vec!["set-repeat", "50", "300"]);
    for i in 1..=9 {
        assert_eq!(plan[i].tasks.len(), 4);
        assert_eq!(plan[i].tasks[0].command().args[3], i.to_string());
    }
    assert_eq!(plan[10].tasks.len(), 2);
    let restarts: Vec<&str> = plan[11].tasks.iter().map(|t| t.command().binary.as_str()).collect();
    assert_eq!(restarts, vec!["waybar", "v2ray", "arti", "wl-paste"]);
    assert!(plan[11].tasks.iter().all(|t| t.is_restart()));
    assert_eq!(plan[12].tasks[0].command().binary, "dbus-update-activation-environment");
    assert_eq!(plan[12].tasks[1].command().binary, "swaybg");
    assert_eq!(plan[12].tasks[1].launch_mode(), ExecutionMode::Detached);
    assert_eq!(plan[13].tasks[0].command().binary, "rivertile");
    assert_eq!(
        strs(&plan[13].tasks[0].command().args),
        vec!["-view-padding", "05", "-outer-padding", "05"]
    );
}

#[test]
fn restart_waits_for_exit() {
    let t = Task::Restart(CommandSpec::new("waybar", Vec::new()));
    assert_eq!(t.launch_mode(), ExecutionMode::WaitForExit);
    let d = Task::Dispatch(CommandSpec::new("swaybg", Vec::new()), ExecutionMode::Detached);
    assert_eq!(d.launch_mode(), ExecutionMode::Detached);
}

#[test]
fn restart_targets_every_match() {
    let entries = vec![
        ProcEntry { name: "10".to_string(), is_dir: true, cmdline: Some("waybar --config x".to_string()) },
        ProcEntry { name: "11".to_string(), is_dir: true, cmdline: Some("other --waybar-flag".to_string()) },
        ProcEntry { name: "12".to_string(), is_dir: true, cmdline: Some("arti proxy".to_string()) },
        ProcEntry { name: "self".to_string(), is_dir: true, cmdline: Some("waybar".to_string()) },
    ];
    let spec = CommandSpec::new("waybar", Vec::new());
    assert_eq!(restart_targets(&entries, &spec), vec![10, 11]);
}

#[test]
fn run_visits_groups_in_order() {
    let mut run = Run::new(3);
    assert_eq!(run.step(), Step::RunGroup(0));
    run.record(true);
    assert_eq!(run.step(), Step::RunGroup(1));
    run.record(true);
    assert_eq!(run.step(), Step::RunGroup(2));
    run.record(true);
    assert_eq!(run.step(), Step::Finished);
    run.record(false);
    assert_eq!(run.step(), Step::Finished);
}

#[test]
fn failed_restart_halts_the_run() {
    let mut run = Run::new(PLAN_LEN);
    for g in 0..11 {
        assert_eq!(run.step(), Step::RunGroup(g));
        run.record(true);
    }
    assert_eq!(run.step(), Step::RunGroup(11));
    run.record(false);
    assert_eq!(run.step(), Step::Aborted(11));
    run.record(true);
    assert_eq!(run.step(), Step::Aborted(11));
}

#[test]
fn empty_plan_finishes_at_once() {
    let run = Run::new(0);
    assert_eq!(run.step(), Step::Finished);
}

#[test]
fn restart_twice_leaves_one_instance() {
    let entry = |pid: &str, cmd: &str| ProcEntry {
        name: pid.to_string(),
        is_dir: true,
        cmdline: Some(cmd.to_string()),
    };
    let spec = CommandSpec::new("waybar", Vec::new());
    let mut table = vec![entry("10", "waybar"), entry("11", "waybar -c y"), entry("12", "arti")];
    for fresh in ["20", "21"] {
        let targets = restart_targets(&table, &spec);
        table.retain(|e| !targets.contains(&e.name.parse::<u32>().unwrap()));
        table.push(entry(fresh, "waybar"));
    }
    assert_eq!(restart_targets(&table, &spec), vec![21]);
    assert_eq!(table.len(), 2);
}
