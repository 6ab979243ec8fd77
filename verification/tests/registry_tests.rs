use tickbox::registry::build_tasks;
use tickbox::task::State;

fn entry(name: &str) -> (String, String) {
    (name.to_string(), format!("/steps/{name}"))
}

#[test]
fn tasks_are_sorted_by_id_and_numbered() {
    let entries = vec![
        entry("20-last"),
        entry("01-first"),
        entry("05-middle"),
    ];
    let tasks = build_tasks(entries).unwrap();
    assert_eq!(tasks.len(), 3);
    let names: Vec<&str> = tasks.iter().map(|t| t.name.as_str()).collect();
    assert_eq!(names, vec!["01-first", "05-middle", "20-last"]);
    for (i, t) in tasks.iter().enumerate() {
        assert_eq!(t.n, i);
        assert!(matches!(t.state, State::Pending));
    }
    assert_eq!(tasks[0].id, 1);
    assert_eq!(tasks[1].id, 5);
    assert_eq!(tasks[2].id, 20);
    assert_eq!(tasks[1].cmd, "/steps/05-middle");
}

#[test]
fn helper_files_are_filtered_out() {
    let entries = vec![
        entry("01-first"),
        entry("01-first~"),
        entry("tickbox.json"),
        entry("steps.conf"),
        entry(".hidden"),
        entry("02-second"),
    ];
    let tasks = build_tasks(entries).unwrap();
    assert_eq!(tasks.len(), 2);
    assert_eq!(tasks[0].name, "01-first");
    assert_eq!(tasks[1].name, "02-second");
}

#[test]
fn unnumbered_step_is_an_error() {
    let entries = vec![entry("01-first"), entry("notanumber")];
    let err = build_tasks(entries).unwrap_err();
    assert_eq!(err, "step file name doesn't start with a number: notanumber");
}

#[test]
fn filtered_entries_never_cause_errors() {
    // A name without a digit prefix is fine as long as it is excluded.
    let entries = vec![entry("01-first"), entry("helper.conf"), entry(".git")];
    let tasks = build_tasks(entries).unwrap();
    assert_eq!(tasks.len(), 1);
}

#[test]
fn empty_directory_is_an_empty_workflow() {
    let tasks = build_tasks(Vec::new()).unwrap();
    assert!(tasks.is_empty());
}

#[test]
fn listing_order_breaks_id_ties() {
    let entries = vec![entry("02-b"), entry("2-a")];
    let tasks = build_tasks(entries).unwrap();
    assert_eq!(tasks.len(), 2);
    assert_eq!(tasks[0].id, 2);
    assert_eq!(tasks[1].id, 2);
    assert_eq!(tasks[0].name, "02-b");
    assert_eq!(tasks[1].name, "2-a");
}
