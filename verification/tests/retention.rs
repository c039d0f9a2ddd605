use mysql_backup::artifact::Artifact;
use mysql_backup::retention::{plan_rotation, plan_rotation_text, select_for_deletion};
use mysql_backup::timestamp::Timestamp;

fn ts(second: u32) -> Timestamp {
    Timestamp { year: 2024, month: 1, day: 2, hour: 3, minute: 4, second }
}

fn art(name: &str, second: u32) -> Artifact {
    Artifact { name: name.to_string(), created_at: ts(second) }
}

fn five() -> Vec<Artifact> {
    vec![art("a3", 3), art("a1", 1), art("a5", 5), art("a2", 2), art("a4", 4)]
}

#[test]
fn keeps_the_three_most_recent_of_five() {
    let victims = select_for_deletion(five(), 3);
    let names: Vec<&str> = victims.iter().map(|a| a.name.as_str()).collect();
    assert_eq!(names, vec!["a1", "a2"]);
}

#[test]
fn deletion_count_is_total_minus_keep() {
    assert_eq!(select_for_deletion(five(), 0).len(), 5);
    assert_eq!(select_for_deletion(five(), 1).len(), 4);
    assert_eq!(select_for_deletion(five(), 3).len(), 2);
    assert_eq!(select_for_deletion(five(), 5).len(), 0);
    assert_eq!(select_for_deletion(five(), 7).len(), 0);
    assert_eq!(select_for_deletion(Vec::new(), 3).len(), 0);
}

#[test]
fn keep_count_zero_deletes_everything() {
    let victims = select_for_deletion(five(), 0);
    let mut names: Vec<String> = victims.iter().map(|a| a.name.clone()).collect();
    names.sort();
    assert_eq!(names, vec!["a1", "a2", "a3", "a4", "a5"]);
}

#[test]
fn no_victim_is_newer_than_a_survivor() {
    let victims = select_for_deletion(five(), 2);
    let victim_names: Vec<String> = victims.iter().map(|a| a.name.clone()).collect();
    let survivors: Vec<Artifact> = five()
        .into_iter()
        .filter(|a| !victim_names.contains(&a.name))
        .collect();
    for v in &victims {
        for s in &survivors {
            assert!(v.created_at.is_le(&s.created_at));
        }
    }
}

#[test]
fn second_pass_after_deletion_selects_nothing() {
    let victims = select_for_deletion(five(), 3);
    let victim_names: Vec<String> = victims.iter().map(|a| a.name.clone()).collect();
    let remaining: Vec<Artifact> = five()
        .into_iter()
        .filter(|a| !victim_names.contains(&a.name))
        .collect();
    assert_eq!(remaining.len(), 3);
    let second = select_for_deletion(remaining, 3);
    assert_eq!(second.len(), 0);
}

#[test]
fn ties_are_broken_deterministically() {
    let listing = vec![art("b", 7), art("a", 7), art("c", 7)];
    let victims = select_for_deletion(listing, 1);
    let names: Vec<&str> = victims.iter().map(|a| a.name.as_str()).collect();
    // stable by listing order: the first two listed leave, the last stays
    assert_eq!(names, vec!["b", "a"]);
}

fn lines_with_one_bad_entry() -> Vec<String> {
    vec![
        "2024-01-02 03:04:01    1024 mysql-2024-01-02:03:04:01.gz".to_string(),
        "2024-01-02 03:04:02    1024 mysql-2024-01-02:03:04:02.gz".to_string(),
        "not-a-date 03:04:03    1024 stray-object".to_string(),
        "2024-01-02 03:04:04    1024 mysql-2024-01-02:03:04:04.gz".to_string(),
        "2024-01-02 03:04:05    1024 mysql-2024-01-02:03:04:05.gz".to_string(),
    ]
}

#[test]
fn unparsable_line_is_skipped_and_never_selected() {
    let lines = lines_with_one_bad_entry();
    let plan = plan_rotation(&lines, 2);
    assert_eq!(plan.skipped, 1);
    assert_eq!(plan.victims.len(), 2);
    let names: Vec<&str> = plan.victims.iter().map(|a| a.name.as_str()).collect();
    assert_eq!(names, vec!["mysql-2024-01-02:03:04:01.gz", "mysql-2024-01-02:03:04:02.gz"]);
    assert!(!names.contains(&"stray-object"));
}

#[test]
fn plan_from_raw_listing_text() {
    let text = "2024-01-02 03:04:01    1024 mysql-a.gz\n2024-01-02 03:04:02    1024 mysql-b.gz\n";
    let plan = plan_rotation_text(text, 1);
    assert_eq!(plan.skipped, 0);
    let names: Vec<&str> = plan.victims.iter().map(|a| a.name.as_str()).collect();
    assert_eq!(names, vec!["mysql-a.gz"]);
}

#[test]
fn plan_with_keep_count_zero_selects_all_valid_entries() {
    let lines = lines_with_one_bad_entry();
    let plan = plan_rotation(&lines, 0);
    assert_eq!(plan.victims.len(), 4);
    assert!(plan.victims.iter().all(|a| a.name != "stray-object"));
}
