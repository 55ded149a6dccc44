use branch_sweeper::candidate::{
    candidate_from, collect_candidates, protected_names, resolve_author, BranchChoice, BranchRecord,
    TipCommit,
};
use branch_sweeper::ordering::{get_branch_choices, sort_by_commit_time};

const DAY: i64 = 24 * 60 * 60;
const NOW: i64 = 1_700_000_000;

fn tip(seconds: i64, name: Option<&str>, email: Option<&str>) -> Option<TipCommit> {
    Some(TipCommit {
        seconds,
        author_name: name.map(|s| s.to_string()),
        author_email: email.map(|s| s.to_string()),
    })
}

fn record(name: &str, is_head: bool, upstream: Option<&str>, seconds: i64) -> BranchRecord {
    BranchRecord {
        name: Some(name.to_string()),
        is_head,
        upstream_name: upstream.map(|s| s.to_string()),
        tip: tip(seconds, Some("alice"), Some("alice@example.com")),
    }
}

fn names(choices: &[BranchChoice]) -> Vec<String> {
    choices.iter().map(|c| c.branch_name.clone()).collect()
}

fn timed(name: &str, commit_time: u64) -> BranchChoice {
    BranchChoice {
        branch_name: name.to_string(),
        upstream_name: None,
        author_name: None,
        commit_time,
    }
}

#[test]
fn protected_names_are_the_four() {
    assert_eq!(protected_names(), vec!["master", "main", "develop", "development"]);
}

#[test]
fn head_and_protected_names_are_never_candidates() {
    let records = vec![
        record("feature-head", true, None, NOW - 9 * DAY),
        record("master", false, None, NOW - 8 * DAY),
        record("main", false, None, NOW - 7 * DAY),
        record("develop", false, None, NOW - 6 * DAY),
        record("development", false, None, NOW - 5 * DAY),
        record("feature-a", false, None, NOW - 4 * DAY),
        record("feature-b", false, None, NOW - 3 * DAY),
    ];
    let choices = get_branch_choices(&records, &protected_names());
    assert_eq!(names(&choices), vec!["feature-a", "feature-b"]);
}

#[test]
fn protected_names_match_exactly_and_with_case() {
    let records = vec![
        record("Main", false, None, 1),
        record("mainline", false, None, 2),
        record("MASTER", false, None, 3),
        record("develop-2", false, None, 4),
        record("main", false, None, 5),
        record(" main", false, None, 6),
    ];
    let choices = get_branch_choices(&records, &protected_names());
    assert_eq!(names(&choices), vec!["Main", "mainline", "MASTER", "develop-2", " main"]);
}

#[test]
fn detached_head_excludes_nothing() {
    let records = vec![record("topic", false, None, 2), record("other", false, None, 1)];
    let choices = get_branch_choices(&records, &protected_names());
    assert_eq!(names(&choices), vec!["other", "topic"]);
}

#[test]
fn head_is_told_by_the_flag_not_by_the_name() {
    let mut twin = record("topic", false, None, 1);
    twin.upstream_name = Some("origin/topic".to_string());
    let records = vec![record("topic", true, None, 2), twin];
    let choices = get_branch_choices(&records, &protected_names());
    assert_eq!(choices.len(), 1);
    assert_eq!(choices[0].upstream_name.as_deref(), Some("origin/topic"));
}

#[test]
fn branch_without_resolvable_tip_is_left_out() {
    let mut broken = record("broken", false, None, 0);
    broken.tip = None;
    let records = vec![broken, record("fine", false, None, 1)];
    let choices = get_branch_choices(&records, &protected_names());
    assert_eq!(names(&choices), vec!["fine"]);
}

#[test]
fn branch_with_unreadable_name_is_left_out() {
    let mut nameless = record("x", false, None, 0);
    nameless.name = None;
    let records = vec![nameless, record("fine", false, None, 1)];
    let choices = get_branch_choices(&records, &protected_names());
    assert_eq!(names(&choices), vec!["fine"]);
}

#[test]
fn head_is_left_out_and_the_oldest_comes_first() {
    let records = vec![
        record("main", true, Some("origin/main"), NOW),
        record("feature-b", false, None, NOW - 2 * DAY),
        record("feature-a", false, Some("origin/feature-a"), NOW - 10 * DAY),
    ];
    let choices = get_branch_choices(&records, &protected_names());
    assert_eq!(names(&choices), vec!["feature-a", "feature-b"]);
    assert_eq!(choices[0].upstream_name.as_deref(), Some("origin/feature-a"));
    assert_eq!(choices[1].upstream_name, None);
    assert_eq!(choices[0].commit_time, (NOW - 10 * DAY) as u64);
    assert_eq!(choices[1].commit_time, (NOW - 2 * DAY) as u64);
}

#[test]
fn candidate_records_name_upstream_author_and_time() {
    let r = BranchRecord {
        name: Some("topic".to_string()),
        is_head: false,
        upstream_name: Some("origin/topic".to_string()),
        tip: tip(42, Some("Bob"), Some("bob@example.com")),
    };
    let c = candidate_from(&r, &protected_names()).unwrap();
    assert_eq!(
        c,
        BranchChoice {
            branch_name: "topic".to_string(),
            upstream_name: Some("origin/topic".to_string()),
            author_name: Some("Bob".to_string()),
            commit_time: 42,
        }
    );
}

#[test]
fn candidate_from_refuses_what_is_not_offered() {
    let ex = protected_names();
    assert_eq!(candidate_from(&record("main", false, None, 1), &ex), None);
    assert_eq!(candidate_from(&record("topic", true, None, 1), &ex), None);
    let mut no_tip = record("topic", false, None, 1);
    no_tip.tip = None;
    assert_eq!(candidate_from(&no_tip, &ex), None);
    assert!(candidate_from(&record("topic", false, None, 1), &ex).is_some());
}

#[test]
fn commit_before_the_epoch_counts_as_the_epoch() {
    let c = candidate_from(&record("old", false, None, -5), &protected_names()).unwrap();
    assert_eq!(c.commit_time, 0);
    let c = candidate_from(&record("oldest", false, None, i64::MIN), &protected_names()).unwrap();
    assert_eq!(c.commit_time, 0);
    let c = candidate_from(&record("last", false, None, i64::MAX), &protected_names()).unwrap();
    assert_eq!(c.commit_time, i64::MAX as u64);
}

#[test]
fn custom_exclusions_are_honoured() {
    let records = vec![record("main", false, None, 1), record("keep", false, None, 2)];
    let choices = get_branch_choices(&records, &vec!["keep".to_string()]);
    assert_eq!(names(&choices), vec!["main"]);
    let choices = get_branch_choices(&records, &Vec::new());
    assert_eq!(names(&choices), vec!["main", "keep"]);
}

#[test]
fn author_prefers_the_display_name() {
    let a = resolve_author(&Some("Alice".to_string()), &Some("a@x.org".to_string()));
    assert_eq!(a.as_deref(), Some("Alice"));
    let a = resolve_author(&Some(String::new()), &Some("a@x.org".to_string()));
    assert_eq!(a.as_deref(), Some(""));
}

#[test]
fn author_falls_back_to_the_email_local_part() {
    let a = resolve_author(&None, &Some("carol@example.com".to_string()));
    assert_eq!(a.as_deref(), Some("carol"));
    let a = resolve_author(&None, &Some("a@b@c".to_string()));
    assert_eq!(a.as_deref(), Some("a"));
    let a = resolve_author(&None, &Some("no-at-sign".to_string()));
    assert_eq!(a.as_deref(), Some("no-at-sign"));
    let a = resolve_author(&None, &Some("@host".to_string()));
    assert_eq!(a.as_deref(), Some(""));
    let a = resolve_author(&None, &Some("jürgen@example.com".to_string()));
    assert_eq!(a.as_deref(), Some("jürgen"));
}

#[test]
fn author_is_absent_without_name_and_email() {
    assert_eq!(resolve_author(&None, &None), None);
}

#[test]
fn collect_keeps_the_order_of_the_records() {
    let records = vec![
        record("c", false, None, 3),
        record("main", false, None, 9),
        record("a", false, None, 1),
        record("b", false, None, 2),
    ];
    let found = collect_candidates(&records, &protected_names());
    assert_eq!(names(&found), vec!["c", "a", "b"]);
}

#[test]
fn sort_is_non_decreasing_by_commit_time() {
    let mut input = Vec::new();
    let mut x: u64 = 12345;
    for i in 0..200 {
        x = x.wrapping_mul(6364136223846793005).wrapping_add(1442695040888963407);
        input.push(timed(&format!("b{i}"), (x >> 33) % 50));
    }
    let sorted = sort_by_commit_time(input.clone());
    assert_eq!(sorted.len(), input.len());
    for w in sorted.windows(2) {
        assert!(w[0].commit_time <= w[1].commit_time);
    }
    let mut expected = input;
    expected.sort_by_key(|c| c.commit_time);
    assert_eq!(sorted, expected);
}

#[test]
fn sort_keeps_ties_in_their_first_order() {
    let input = vec![
        timed("x1", 5),
        timed("y1", 3),
        timed("x2", 5),
        timed("y2", 3),
        timed("x3", 5),
        timed("z", 4),
    ];
    let sorted = sort_by_commit_time(input);
    assert_eq!(names(&sorted), vec!["y1", "y2", "z", "x1", "x2", "x3"]);
}

#[test]
fn sort_of_nothing_and_of_one() {
    assert_eq!(sort_by_commit_time(Vec::new()), Vec::new());
    assert_eq!(sort_by_commit_time(vec![timed("only", 7)]), vec![timed("only", 7)]);
}

#[test]
fn sort_reverses_a_descending_list() {
    let input = vec![timed("c", 3), timed("b", 2), timed("a", 1)];
    assert_eq!(names(&sort_by_commit_time(input)), vec!["a", "b", "c"]);
}
