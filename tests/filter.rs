use dump_filter::classify::{classify_line, extract_table_name, LineKind};
use dump_filter::exclusions::parse_exclusions;
use dump_filter::pass::process_lines;
use dump_filter::report::{format_record, observation_record, push_decimal, LogFormat};
use dump_filter::text::{is_whitespace, starts_with};
use dump_filter::tracker::{contains_name, elapsed_nanos, Phase, PhaseKind, Tracker};

fn owned(lines: &[&str]) -> Vec<String> {
    lines.iter().map(|l| l.to_string()).collect()
}

fn names(list: &[&str]) -> Vec<String> {
    owned(list)
}

fn sample_dump() -> Vec<String> {
    owned(&[
        "CREATE TABLE `t1` (\n",
        "INSERT INTO `t1` VALUES (1);\n",
        "UNLOCK TABLES;\n",
    ])
}

#[test]
fn classifies_each_prefix() {
    assert_eq!(classify_line("CREATE TABLE `a` (\n"), LineKind::TableDefinitionStart);
    assert_eq!(classify_line("INSERT INTO `a` VALUES (1);\n"), LineKind::RowInsertionStart);
    assert_eq!(classify_line("UNLOCK TABLES;\n"), LineKind::PhaseEndMarker);
    assert_eq!(classify_line("UNLOCK TABLES;"), LineKind::PhaseEndMarker);
    assert_eq!(classify_line("LOCK TABLES `a` WRITE;\n"), LineKind::Other);
    assert_eq!(classify_line(""), LineKind::Other);
}

#[test]
fn classification_is_exact_about_prefixes() {
    assert_eq!(classify_line(" CREATE TABLE `a` (\n"), LineKind::Other);
    assert_eq!(classify_line("create table `a` (\n"), LineKind::Other);
    assert_eq!(classify_line("CREATE TABL"), LineKind::Other);
    assert_eq!(classify_line("UNLOCK TABLES\n"), LineKind::Other);
    assert_eq!(classify_line("INSERT INTO"), LineKind::RowInsertionStart);
}

#[test]
fn prefix_test_reads_characters() {
    assert!(starts_with("héllo", "hé"));
    assert!(!starts_with("hé", "héllo"));
    assert!(starts_with("anything", ""));
    assert!(!starts_with("abc", "abd"));
}

#[test]
fn white_space_is_unicode_white_space() {
    assert!(is_whitespace(' '));
    assert!(is_whitespace('\t'));
    assert!(is_whitespace('\n'));
    assert!(is_whitespace('\u{3000}'));
    assert!(is_whitespace('\u{a0}'));
    assert!(!is_whitespace('a'));
    assert!(!is_whitespace('`'));
    assert!(!is_whitespace('\u{200b}'));
    for c in ['\u{9}', '\u{b}', '\u{c}', '\r', '\u{85}', '\u{1680}', '\u{2000}', '\u{200a}', '\u{2028}', '\u{2029}', '\u{202f}', '\u{205f}'] {
        assert_eq!(is_whitespace(c), c.is_whitespace());
    }
}

#[test]
fn extracts_quoted_table_name() {
    assert_eq!(extract_table_name("CREATE TABLE `t1` (\n"), Some("t1".to_string()));
    assert_eq!(extract_table_name("CREATE TABLE users (\n"), Some("users".to_string()));
    assert_eq!(extract_table_name("CREATE   TABLE\t`a b`"), Some("a".to_string()));
}

#[test]
fn extraction_strips_every_surrounding_quote() {
    assert_eq!(extract_table_name("CREATE TABLE ``t`` ("), Some("t".to_string()));
    assert_eq!(extract_table_name("CREATE TABLE ``` ("), Some(String::new()));
    assert_eq!(extract_table_name("CREATE TABLE `a`b` ("), Some("a`b".to_string()));
}

#[test]
fn extraction_needs_three_words() {
    assert_eq!(extract_table_name("CREATE TABLE\n"), None);
    assert_eq!(extract_table_name("CREATE TABLE    \n"), None);
    assert_eq!(extract_table_name(""), None);
}

#[test]
fn extraction_splits_on_unicode_white_space() {
    assert_eq!(extract_table_name("CREATE\u{3000}TABLE\u{a0}`t`"), Some("t".to_string()));
}

#[test]
fn exclusions_split_and_trim() {
    let parsed = parse_exclusions(&names(&["a, b", " c ", "d"]));
    assert_eq!(parsed, names(&["a", "b", "c", "d"]));
}

#[test]
fn exclusions_keep_empty_parts() {
    assert_eq!(parse_exclusions(&names(&[""])), names(&[""]));
    assert_eq!(parse_exclusions(&names(&["a,,b,"])), names(&["a", "", "b", ""]));
    assert_eq!(parse_exclusions(&Vec::new()), Vec::<String>::new());
}

#[test]
fn membership_is_exact() {
    let set = names(&["t1", "t2"]);
    assert!(contains_name(&set, &"t2".to_string()));
    assert!(!contains_name(&set, &"t".to_string()));
    assert!(!contains_name(&set, &"T1".to_string()));
    assert!(!contains_name(&Vec::new(), &"t1".to_string()));
}

#[test]
fn decimal_rendering() {
    let mut s = String::from("n=");
    push_decimal(&mut s, 0);
    assert_eq!(s, "n=0");
    let mut s = String::new();
    push_decimal(&mut s, 1234567890);
    assert_eq!(s, "1234567890");
    let mut s = String::new();
    push_decimal(&mut s, u64::MAX);
    assert_eq!(s, u64::MAX.to_string());
}

#[test]
fn default_record_layout() {
    let r = format_record(LogFormat::Default, PhaseKind::DefiningTable, "t1", 12_345_678);
    assert_eq!(r, "CREATE TABLE t1 took 12 ms");
    let r = format_record(LogFormat::Default, PhaseKind::InsertingRows, "orders", 0);
    assert_eq!(r, "INSERT INTO orders took 0 ms");
}

#[test]
fn csv_record_layout() {
    let r = format_record(LogFormat::Csv, PhaseKind::DefiningTable, "t1", 2_500_000);
    assert_eq!(r, "CREATE,t1,2");
    let r = format_record(LogFormat::Csv, PhaseKind::InsertingRows, "t1", 999_999);
    assert_eq!(r, "INSERT,t1,0");
}

#[test]
fn elapsed_never_negative() {
    assert_eq!(elapsed_nanos(10, 25), 15);
    assert_eq!(elapsed_nanos(25, 10), 0);
    assert_eq!(elapsed_nanos(7, 7), 0);
}

#[test]
fn excluded_table_drops_only_its_insertions() {
    let input = sample_dump();
    let (out, records) = process_lines(&input, &vec![0, 1, 2], 3, names(&["t1"]), false);
    assert_eq!(out, owned(&["CREATE TABLE `t1` (\n", "UNLOCK TABLES;\n"]));
    assert!(records.is_empty());
}

#[test]
fn empty_exclusion_set_forwards_everything() {
    let input = sample_dump();
    let (out, _) = process_lines(&input, &vec![0, 1, 2], 3, Vec::new(), false);
    assert_eq!(out, input);
    assert_eq!(out.concat(), input.concat());
}

#[test]
fn csv_log_reports_definition_then_insertion() {
    let input = sample_dump();
    let times = vec![0, 5_000_000, 12_000_000];
    let (out, records) = process_lines(&input, &times, 20_000_000, Vec::new(), true);
    assert_eq!(out, input);
    let text: Vec<String> = records
        .iter()
        .map(|o| observation_record(LogFormat::Csv, o))
        .collect();
    assert_eq!(text, owned(&["CREATE,t1,5", "INSERT,t1,7"]));
}

#[test]
fn two_word_definition_line_is_ordinary() {
    let input = owned(&["CREATE TABLE\n", "INSERT INTO `x` VALUES (1);\n"]);
    let (out, records) = process_lines(&input, &vec![0, 1], 2, names(&["x"]), true);
    assert_eq!(out, input);
    assert!(records.is_empty());

    let mut tracker = Tracker::new(Vec::new(), true);
    let outcome = tracker.step("CREATE TABLE\n", 0);
    assert!(outcome.forward);
    assert!(outcome.observation.is_none());
    assert!(!outcome.opened_table);
    assert!(matches!(tracker.phase(), Phase::Idle));
}

#[test]
fn malformed_definition_does_not_close_current_phase() {
    let mut tracker = Tracker::new(Vec::new(), true);
    tracker.step("CREATE TABLE `a` (\n", 0);
    tracker.step("INSERT INTO `a` VALUES (1);\n", 10);
    let outcome = tracker.step("CREATE TABLE\n", 20);
    assert!(outcome.observation.is_none());
    match tracker.phase() {
        Phase::InsertingRows { name, started_at } => {
            assert_eq!(name, "a");
            assert_eq!(*started_at, 10);
        }
        _ => panic!("phase changed"),
    }
}

#[test]
fn unclosed_phase_is_closed_at_end() {
    let input = owned(&["CREATE TABLE `a` (\n", "INSERT INTO `a` VALUES (1);\n"]);
    let (_, records) = process_lines(&input, &vec![0, 3_000_000], 10_000_000, Vec::new(), true);
    assert_eq!(records.len(), 2);
    assert_eq!(records[1].kind, PhaseKind::InsertingRows);
    assert_eq!(records[1].table_name, "a");
    assert_eq!(records[1].duration_nanos, 7_000_000);
}

#[test]
fn record_count_matches_phase_closes() {
    let input = owned(&[
        "CREATE TABLE `a` (\n",
        "  `id` int\n",
        ") ENGINE=InnoDB;\n",
        "INSERT INTO `a` VALUES (1);\n",
        "UNLOCK TABLES;\n",
        "CREATE TABLE `b` (\n",
        "CREATE TABLE `c` (\n",
        "INSERT INTO `c` VALUES (2);\n",
    ]);
    let times: Vec<u64> = (0..input.len() as u64).collect();
    let (_, records) = process_lines(&input, &times, 100, Vec::new(), true);
    let kinds: Vec<(PhaseKind, String)> = records
        .iter()
        .map(|o| (o.kind, o.table_name.clone()))
        .collect();
    assert_eq!(
        kinds,
        vec![
            (PhaseKind::DefiningTable, "a".to_string()),
            (PhaseKind::InsertingRows, "a".to_string()),
            (PhaseKind::DefiningTable, "b".to_string()),
            (PhaseKind::DefiningTable, "c".to_string()),
            (PhaseKind::InsertingRows, "c".to_string()),
        ]
    );
    let (_, silent) = process_lines(&input, &times, 100, Vec::new(), false);
    assert!(silent.is_empty());
}

#[test]
fn definition_closed_by_unlock_is_not_reported() {
    let input = owned(&["CREATE TABLE `a` (\n", "UNLOCK TABLES;\n"]);
    let (out, records) = process_lines(&input, &vec![0, 1], 2, Vec::new(), true);
    assert_eq!(out, input);
    assert!(records.is_empty());
}

#[test]
fn insertion_for_excluded_table_stays_in_definition() {
    let mut tracker = Tracker::new(names(&["a"]), true);
    tracker.step("CREATE TABLE `a` (\n", 0);
    let outcome = tracker.step("INSERT INTO `a` VALUES (1);\n", 4);
    assert!(!outcome.forward);
    let o = outcome.observation.expect("definition closes");
    assert_eq!((o.kind, o.table_name.as_str(), o.duration_nanos), (PhaseKind::DefiningTable, "a", 4));
    assert!(matches!(tracker.phase(), Phase::DefiningTable { .. }));
    assert!(tracker.skipping());
}

#[test]
fn excluded_definition_kept_and_later_table_forwarded() {
    let input = owned(&[
        "CREATE TABLE `a` (\n",
        "INSERT INTO `a` VALUES (1);\n",
        "INSERT INTO `a` VALUES (2);\n",
        "UNLOCK TABLES;\n",
        "CREATE TABLE `b` (\n",
        "INSERT INTO `b` VALUES (3);\n",
    ]);
    let times = vec![0; input.len()];
    let (out, _) = process_lines(&input, &times, 0, names(&["a"]), false);
    assert_eq!(
        out,
        owned(&[
            "CREATE TABLE `a` (\n",
            "UNLOCK TABLES;\n",
            "CREATE TABLE `b` (\n",
            "INSERT INTO `b` VALUES (3);\n",
        ])
    );
}

#[test]
fn skip_flag_survives_unlock_until_next_table() {
    let input = owned(&[
        "CREATE TABLE `a` (\n",
        "UNLOCK TABLES;\n",
        "INSERT INTO `a` VALUES (1);\n",
    ]);
    let (out, _) = process_lines(&input, &vec![0, 0, 0], 0, names(&["a"]), false);
    assert_eq!(out, owned(&["CREATE TABLE `a` (\n", "UNLOCK TABLES;\n"]));
}

#[test]
fn insertion_outside_a_table_is_forwarded() {
    let input = owned(&["INSERT INTO `a` VALUES (1);\n", "-- done\n"]);
    let (out, records) = process_lines(&input, &vec![0, 0], 0, names(&["a"]), true);
    assert_eq!(out, input);
    assert!(records.is_empty());
}

#[test]
fn filtering_twice_changes_nothing() {
    let input = owned(&[
        "CREATE TABLE `a` (\n",
        "INSERT INTO `a` VALUES (1);\n",
        "UNLOCK TABLES;\n",
        "CREATE TABLE `b` (\n",
        "INSERT INTO `b` VALUES (2);\n",
        "UNLOCK TABLES;\n",
    ]);
    let excluded = names(&["a"]);
    let (once, _) = process_lines(&input, &vec![0; input.len()], 0, excluded.clone(), false);
    let (twice, _) = process_lines(&once, &vec![0; once.len()], 0, excluded, false);
    assert_eq!(once, twice);
    assert_eq!(once.len(), input.len() - 1);
}

#[test]
fn finish_without_logging_reports_nothing() {
    let mut tracker = Tracker::new(Vec::new(), false);
    tracker.step("CREATE TABLE `a` (\n", 0);
    assert!(tracker.finish(5).is_none());
    let idle = Tracker::new(Vec::new(), true);
    assert!(idle.finish(5).is_none());
}

#[test]
fn empty_input_produces_nothing() {
    let (out, records) = process_lines(&Vec::new(), &Vec::new(), 0, Vec::new(), true);
    assert!(out.is_empty());
    assert!(records.is_empty());
}
