use branch_sweeper::candidate::BranchChoice;
use branch_sweeper::present::{
    compose_label, format_final_answers, frame_summary, get_render_config, summary_rows, table_cell,
    Moment,
};

const DAY: u64 = 24 * 60 * 60;

fn choice(name: &str, upstream: Option<&str>, author: Option<&str>, commit_time: u64) -> BranchChoice {
    BranchChoice {
        branch_name: name.to_string(),
        upstream_name: upstream.map(|s| s.to_string()),
        author_name: author.map(|s| s.to_string()),
        commit_time,
    }
}

#[test]
fn label_marks_an_upstream_whose_name_is_unreadable() {
    let c = choice("topic", Some(""), Some("alice"), 1_000);
    let now = Moment::new(1_000 + DAY, 0).unwrap();
    assert_eq!(c.label(&now), "topic (🔭) 🧒 alice ⏰ 1 d ago");
    assert_eq!(format_final_answers(&vec![c]), "\nLocal  Author  Remote\ntopic  alice\n");
}

#[test]
fn label_shows_marker_author_and_age() {
    let c = choice("feature-a", Some("origin/feature-a"), Some("alice"), 1_000);
    let now = Moment::new(1_000 + 10 * DAY, 0).unwrap();
    assert_eq!(c.label(&now), "feature-a (🔭) 🧒 alice ⏰ 10 d ago");
}

#[test]
fn label_without_upstream_or_author() {
    let c = choice("feature-b", None, None, 500);
    let now = Moment::new(500 + 2 * DAY + DAY / 2, 999_999_999).unwrap();
    assert_eq!(c.label(&now), "feature-b 🧒 no-name ⏰ 2.5 d ago");
}

#[test]
fn label_age_is_counted_at_render_time() {
    let c = choice("topic", None, Some("bob"), 10_000);
    let early = Moment::new(10_000 + 90, 0).unwrap();
    let late = Moment::new(10_000 + 3 * 60 * 60, 0).unwrap();
    assert_eq!(c.label(&early), "topic 🧒 bob ⏰ 1.5 m ago");
    assert_eq!(c.label(&late), "topic 🧒 bob ⏰ 3 h ago");
}

#[test]
fn label_of_commit_ahead_of_clock_has_zero_age() {
    let c = choice("future", None, Some("carol"), 2_000);
    let now = Moment::new(1_999, 500_000_000).unwrap();
    assert_eq!(c.label(&now), "future 🧒 carol ⏰ 0 s ago");
}

#[test]
fn label_within_the_first_second_counts_nanoseconds() {
    let c = choice("fresh", None, Some("dave"), 2_000);
    let now = Moment::new(2_000, 500_000_000).unwrap();
    assert_eq!(c.label(&now), "fresh 🧒 dave ⏰ 500 ms ago");
}

#[test]
fn moment_rejects_a_full_second_of_nanoseconds() {
    assert!(Moment::new(5, 1_000_000_000).is_none());
    assert!(Moment::new(5, u32::MAX).is_none());
    let m = Moment::new(5, 999_999_999).unwrap();
    assert_eq!((m.secs, m.nanos), (5, 999_999_999));
}

#[test]
fn compose_label_takes_the_age_text_as_given() {
    let c = choice("x", Some("origin/x"), Some(""), 0);
    assert_eq!(compose_label(&c, "soon"), "x (🔭) 🧒  ⏰ soon ago");
}

#[test]
fn summary_rows_blank_missing_fields() {
    let chosen = vec![
        choice("feature-a", Some("origin/feature-a"), Some("alice"), 1),
        choice("feature-b", None, None, 2),
    ];
    let rows = summary_rows(&chosen);
    assert_eq!(
        rows,
        vec![
            vec!["feature-a".to_string(), "alice".to_string(), "origin/feature-a".to_string()],
            vec!["feature-b".to_string(), String::new(), String::new()],
        ]
    );
}

#[test]
fn final_answers_render_a_three_column_table() {
    let chosen = vec![
        choice("feature-a", Some("origin/feature-a"), Some("alice"), 1),
        choice("feature-b", None, None, 2),
    ];
    assert_eq!(
        format_final_answers(&chosen),
        "\nLocal      Author  Remote\nfeature-a  alice   origin/feature-a\nfeature-b\n"
    );
}

#[test]
fn final_answers_of_an_empty_selection_show_the_headers() {
    assert_eq!(format_final_answers(&Vec::new()), "\nLocal  Author  Remote\n");
}

#[test]
fn final_answers_keep_selection_order() {
    let chosen = vec![choice("b", None, Some("z"), 9), choice("a", None, Some("y"), 1)];
    assert_eq!(format_final_answers(&chosen), "\nLocal  Author  Remote\nb      z\na      y\n");
}

#[test]
fn frame_summary_puts_a_line_break_first() {
    assert_eq!(frame_summary("T"), "\nT");
    assert_eq!(frame_summary(""), "\n");
}

#[test]
fn render_config_uses_triangles() {
    let cfg = get_render_config();
    assert_eq!(cfg.scroll_up_prefix, "▲");
    assert_eq!(cfg.scroll_down_prefix, "▼");
}

#[test]
fn table_cell_keeps_what_the_table_can_measure() {
    assert_eq!(table_cell("abc"), "abc");
    assert_eq!(table_cell(""), "");
    assert_eq!(table_cell("feature-a"), "feature-a");
    assert_eq!(table_cell("\x1b[0m"), "\x1b[0m");
    assert_eq!(table_cell("\x1b[31mred\x1b[0m"), "\x1b[31mred\x1b[0m");
    assert_eq!(table_cell("\x1b"), "\x1b");
    assert_eq!(table_cell("\x1bA"), "\x1bA");
    assert_eq!(table_cell("a\x1bb"), "a\x1bb");
    assert_eq!(table_cell("[\x1b"), "[\x1b");
    assert_eq!(table_cell("\x1b\x1b"), "\x1b\x1b");
    assert_eq!(table_cell("é\x1b["), "é\x1b[");
}

#[test]
fn table_cell_drops_escapes_where_a_sequence_opens_in_under_four_bytes() {
    assert_eq!(table_cell("\x1b["), "[");
    assert_eq!(table_cell("\x1b[m"), "[m");
    assert_eq!(table_cell("a\x1b["), "a[");
    assert_eq!(table_cell("\x1b\x1b["), "[");
}

#[test]
fn final_answers_show_an_author_with_an_escape_character() {
    let chosen = vec![choice("b", None, Some("\x1bA"), 1)];
    assert_eq!(format_final_answers(&chosen), "\nLocal  Author  Remote\nb      \x1bA\n");
    let chosen = vec![choice("b", None, Some("a\x1bb"), 1)];
    assert_eq!(format_final_answers(&chosen), "\nLocal  Author  Remote\nb      a\x1bb\n");
}

#[test]
fn final_answers_show_a_four_byte_cell_that_opens_a_sequence() {
    let chosen = vec![choice("b", None, Some("é\x1b["), 1)];
    assert_eq!(format_final_answers(&chosen), "\nLocal  Author  Remote\nb      é\x1b[\n");
}

#[test]
fn final_answers_render_a_short_cell_with_an_escape() {
    let chosen = vec![choice("b", Some("\x1b[x"), Some("\x1b["), 1)];
    assert_eq!(format_final_answers(&chosen), "\nLocal  Author  Remote\nb      [       [x\n");
}

#[test]
fn final_answers_do_not_count_colour_sequences_in_the_width() {
    let chosen = vec![choice("b", None, Some("\x1b[31mred\x1b[0m"), 1)];
    assert_eq!(
        format_final_answers(&chosen),
        "\nLocal  Author  Remote\nb      \x1b[31mred\x1b[0m\n"
    );
}

#[test]
fn label_of_the_longest_age() {
    let c = choice("old", None, None, 0);
    let now = Moment::new(u64::MAX, 999_999_999).unwrap();
    assert_eq!(c.label(&now), "old 🧒 no-name ⏰ 213503982334601.2 d ago");
}
