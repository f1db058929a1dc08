use obvious3::{Evidence, Filter, Find, FindError, ObjectExport, ObjectMeta, Pattern, Timestamp};
use std::time::{SystemTime, UNIX_EPOCH};

fn now() -> Timestamp {
    let since = SystemTime::now().duration_since(UNIX_EPOCH).unwrap();
    Timestamp { secs: since.as_secs() as i64, nanos: since.subsec_nanos() }
}

fn record(location: &str, size: usize, last_modified: Timestamp) -> ObjectMeta {
    ObjectMeta { location: location.to_string(), last_modified, size, e_tag: None, version: None }
}

fn compiled(find: &Find) -> Filter {
    find.compile().unwrap()
}

fn seen(path_hit: bool, basename_hit: bool, clock: Timestamp) -> Evidence {
    Evidence { path_hit, basename_hit, now_after: clock, now_before: clock }
}

#[test]
fn min_size_above_the_record_is_no_match() {
    let find = Find { min_size: Some(1000), ..Find::default() };
    assert!(!compiled(&find).matches(&record("a", 500, now())));
}

#[test]
fn max_size_above_the_record_is_a_match() {
    let find = Find { max_size: Some(1000), ..Find::default() };
    assert!(compiled(&find).matches(&record("a", 500, now())));
}

#[test]
fn invert_flips_each_size_result() {
    let least = Find { min_size: Some(1000), invert: true, ..Find::default() };
    assert!(compiled(&least).matches(&record("a", 500, now())));
    let most = Find { max_size: Some(1000), invert: true, ..Find::default() };
    assert!(!compiled(&most).matches(&record("a", 500, now())));
}

#[test]
fn both_size_bounds_with_invert() {
    let plain = Find { min_size: Some(1000), max_size: Some(1000), ..Find::default() };
    assert!(!compiled(&plain).matches(&record("a", 500, now())));
    let inverted = Find { invert: true, ..plain };
    assert!(compiled(&inverted).matches(&record("a", 500, now())));
}

#[test]
fn size_bounds_are_inclusive() {
    let find = Find { min_size: Some(500), max_size: Some(500), ..Find::default() };
    let filter = compiled(&find);
    assert!(filter.matches(&record("a", 500, now())));
    assert!(!filter.matches(&record("a", 499, now())));
    assert!(!filter.matches(&record("a", 501, now())));
}

#[test]
fn path_match_with_failed_size_bound_is_excluded() {
    let find = Find {
        path_match: Some(r"\.parquet$".to_string()),
        min_size: Some(1000),
        ..Find::default()
    };
    let filter = compiled(&find);
    assert!(!filter.matches(&record("data/part.parquet", 500, now())));
    assert!(filter.matches(&record("data/part.parquet", 1000, now())));
}

#[test]
fn path_match_with_failed_size_bound_is_included_when_inverted() {
    let find = Find {
        path_match: Some(r"\.parquet$".to_string()),
        min_size: Some(1000),
        invert: true,
        ..Find::default()
    };
    let filter = compiled(&find);
    assert!(filter.matches(&record("data/part.parquet", 500, now())));
    assert!(!filter.matches(&record("data/part.parquet", 1000, now())));
}

#[test]
fn path_regex_sees_the_full_location() {
    let find = Find { path_match: Some("^data/2024/".to_string()), ..Find::default() };
    let filter = compiled(&find);
    assert!(filter.matches(&record("data/2024/x.csv", 1, now())));
    assert!(!filter.matches(&record("old/data/2024/x.csv", 1, now())));
}

#[test]
fn basename_regex_sees_only_the_final_segment() {
    let find = Find { basename_match: Some("^part".to_string()), ..Find::default() };
    let filter = compiled(&find);
    assert!(filter.matches(&record("data/part-1.parquet", 1, now())));
    assert!(!filter.matches(&record("part/data-1.parquet", 1, now())));
    assert!(filter.matches(&record("part-2", 1, now())));
}

#[test]
fn basename_regex_sees_the_empty_name_after_a_trailing_slash() {
    let find = Find { basename_match: Some("^$".to_string()), ..Find::default() };
    let filter = compiled(&find);
    assert!(filter.matches(&record("data/dir/", 1, now())));
    assert!(filter.matches(&record("", 1, now())));
    assert!(!filter.matches(&record("data/file", 1, now())));
}

#[test]
fn regexes_are_case_sensitive_unless_flagged() {
    let plain = Find { path_match: Some("foo".to_string()), ..Find::default() };
    assert!(!compiled(&plain).matches(&record("FOO", 1, now())));
    let flagged = Find { path_match: Some("(?i)foo".to_string()), ..Find::default() };
    assert!(compiled(&flagged).matches(&record("FOO", 1, now())));
}

#[test]
fn absolute_time_bounds_are_inclusive() {
    let bound = Timestamp { secs: 1_700_000_000, nanos: 5 };
    let after = Find { after_absolute: Some(bound), ..Find::default() };
    let filter = compiled(&after);
    assert!(filter.matches(&record("a", 1, bound)));
    assert!(filter.matches(&record("a", 1, Timestamp { secs: 1_700_000_000, nanos: 6 })));
    assert!(!filter.matches(&record("a", 1, Timestamp { secs: 1_700_000_000, nanos: 4 })));
    let before = Find { before_absolute: Some(bound), ..Find::default() };
    let filter = compiled(&before);
    assert!(filter.matches(&record("a", 1, bound)));
    assert!(filter.matches(&record("a", 1, Timestamp { secs: 1_699_999_999, nanos: 999_999_999 })));
    assert!(!filter.matches(&record("a", 1, Timestamp { secs: 1_700_000_001, nanos: 0 })));
}

#[test]
fn fresh_record_is_after_an_hour_ago_and_not_before_it() {
    let fresh = record("a", 500, now());
    let after = Find { after: Some(3600), ..Find::default() };
    assert!(compiled(&after).matches(&fresh));
    let before = Find { before: Some(3600), ..Find::default() };
    assert!(!compiled(&before).matches(&fresh));
}

#[test]
fn old_record_is_before_an_hour_ago_and_not_after_it() {
    let old = record("a", 500, Timestamp { secs: 86_400, nanos: 0 });
    let after = Find { after: Some(3600), ..Find::default() };
    assert!(!compiled(&after).matches(&old));
    let before = Find { before: Some(3600), ..Find::default() };
    assert!(compiled(&before).matches(&old));
}

#[test]
fn decide_uses_the_clock_readings_it_is_given() {
    let find = Find { after: Some(10), before: Some(5), ..Find::default() };
    let filter = compiled(&find);
    let clock = Timestamp { secs: 1_000, nanos: 0 };
    let inside = record("a", 1, Timestamp { secs: 992, nanos: 0 });
    let too_new = record("a", 1, Timestamp { secs: 996, nanos: 0 });
    let too_old = record("a", 1, Timestamp { secs: 989, nanos: 999_999_999 });
    assert!(filter.decide(&inside, &seen(true, true, clock)));
    assert!(!filter.decide(&too_new, &seen(true, true, clock)));
    assert!(!filter.decide(&too_old, &seen(true, true, clock)));
    assert!(filter.decide(&record("a", 1, Timestamp { secs: 990, nanos: 0 }), &seen(true, true, clock)));
    assert!(filter.decide(&record("a", 1, Timestamp { secs: 995, nanos: 0 }), &seen(true, true, clock)));
}

#[test]
fn decide_reads_each_clock_for_its_own_bound() {
    let find = Find { after: Some(0), before: Some(0), ..Find::default() };
    let filter = compiled(&find);
    let stamp = Timestamp { secs: 100, nanos: 0 };
    let evidence = Evidence {
        path_hit: true,
        basename_hit: true,
        now_after: Timestamp { secs: 99, nanos: 0 },
        now_before: Timestamp { secs: 101, nanos: 0 },
    };
    assert!(filter.decide(&record("a", 1, stamp), &evidence));
    let swapped = Evidence {
        now_after: Timestamp { secs: 101, nanos: 0 },
        now_before: Timestamp { secs: 99, nanos: 0 },
        ..evidence
    };
    assert!(!filter.decide(&record("a", 1, stamp), &swapped));
}

#[test]
fn decide_ignores_hits_of_absent_patterns() {
    let filter = compiled(&Find::default());
    let clock = Timestamp { secs: 0, nanos: 0 };
    assert!(filter.decide(&record("a", 1, clock), &seen(false, false, clock)));
}

#[test]
fn decide_needs_the_hit_of_each_present_pattern() {
    let find = Find {
        path_match: Some("a".to_string()),
        basename_match: Some("b".to_string()),
        ..Find::default()
    };
    let filter = compiled(&find);
    let clock = Timestamp { secs: 0, nanos: 0 };
    let any = record("whatever", 1, clock);
    assert!(filter.decide(&any, &seen(true, true, clock)));
    assert!(!filter.decide(&any, &seen(true, false, clock)));
    assert!(!filter.decide(&any, &seen(false, true, clock)));
    assert!(!filter.decide(&any, &seen(false, false, clock)));
}

#[test]
fn invalid_path_pattern_fails_compilation() {
    let find = Find { path_match: Some("foo(bar".to_string()), ..Find::default() };
    assert_eq!(find.compile().err(), Some(FindError::InvalidPattern));
}

#[test]
fn invalid_basename_pattern_fails_compilation() {
    let find = Find {
        path_match: Some("fine".to_string()),
        basename_match: Some("[unclosed".to_string()),
        ..Find::default()
    };
    assert_eq!(find.compile().err(), Some(FindError::InvalidPattern));
}

#[test]
fn oversized_pattern_fails_compilation() {
    assert_eq!(Pattern::new(r"\w{100000}").err(), Some(FindError::InvalidPattern));
}

#[test]
fn pattern_keeps_its_text_and_matches_anywhere() {
    let pattern = Pattern::new(r"b+c").unwrap();
    assert_eq!(pattern.as_str(), "b+c");
    assert!(pattern.is_match("aabbbcc"));
    assert!(!pattern.is_match("b+c"));
    assert!(!pattern.is_match(""));
}

#[test]
fn filter_can_be_built_from_compiled_patterns() {
    let config = Find { min_size: Some(10), ..Find::default() };
    let filter = Filter::new(&config, Some(Pattern::new("^x").unwrap()), None);
    let clock = Timestamp { secs: 0, nanos: 0 };
    assert!(filter.matches(&record("x/y", 10, clock)));
    assert!(!filter.matches(&record("y/x", 10, clock)));
    assert!(!filter.matches(&record("x/y", 9, clock)));
}

#[test]
fn select_hands_out_the_wire_form_of_a_survivor() {
    let find = Find { max_size: Some(10), ..Find::default() };
    let filter = compiled(&find);
    let stamp = Timestamp { secs: 7, nanos: 8 };
    let kept = ObjectMeta {
        location: "k".to_string(),
        last_modified: stamp,
        size: 10,
        e_tag: Some("e".to_string()),
        version: Some("v".to_string()),
    };
    assert_eq!(
        filter.select(kept),
        Some(ObjectExport {
            location: "k".to_string(),
            last_modified: stamp,
            size: 10,
            e_tag: Some("e".to_string()),
            version: Some("v".to_string()),
        })
    );
    assert_eq!(filter.select(record("d", 11, stamp)), None);
}

#[test]
fn run_keeps_survivors_in_order() {
    let find = Find { basename_match: Some(r"\.parquet$".to_string()), ..Find::default() };
    let stamp = Timestamp { secs: 1, nanos: 2 };
    let input = vec![
        record("a/1.parquet", 1, stamp),
        record("a/2.csv", 2, stamp),
        record("b.parquet/3", 3, stamp),
        record("c/4.parquet", 4, stamp),
    ];
    let output = find.run(input).unwrap();
    let locations: Vec<&str> = output.iter().map(|r| r.location.as_str()).collect();
    assert_eq!(locations, vec!["a/1.parquet", "c/4.parquet"]);
}

#[test]
fn run_without_filters_reproduces_its_input() {
    let stamp = Timestamp { secs: 1_700_000_000, nanos: 0 };
    let input = vec![
        record("a/1.parquet", 1, stamp),
        record("", 0, Timestamp { secs: -5, nanos: 1 }),
        ObjectMeta {
            location: "z".to_string(),
            last_modified: stamp,
            size: 9,
            e_tag: Some("tag".to_string()),
            version: Some("v1".to_string()),
        },
    ];
    let expected: Vec<ObjectExport> = input.iter().cloned().map(ObjectExport::from).collect();
    let first = Find::default().run(input).unwrap();
    assert_eq!(first, expected);
    let again: Vec<ObjectMeta> = first.into_iter().map(ObjectMeta::from).collect();
    let second = Find::default().run(again).unwrap();
    assert_eq!(second, expected);
}

#[test]
fn run_with_invert_keeps_the_complement() {
    let stamp = Timestamp { secs: 1, nanos: 2 };
    let input = vec![record("a", 5, stamp), record("b", 50, stamp), record("c", 500, stamp)];
    let find = Find { min_size: Some(50), invert: true, ..Find::default() };
    let output = find.run(input).unwrap();
    assert_eq!(output.len(), 1);
    assert_eq!(output[0].location, "a");
}

#[test]
fn run_with_an_invalid_pattern_filters_nothing() {
    let find = Find { path_match: Some("(".to_string()), ..Find::default() };
    let stamp = Timestamp { secs: 1, nanos: 2 };
    assert_eq!(find.run(vec![record("a", 5, stamp)]), Err(FindError::InvalidPattern));
}

#[test]
fn run_on_no_records_gives_none() {
    assert_eq!(Find::default().run(Vec::new()), Ok(Vec::new()));
}

#[test]
fn assemble_succeeds_when_every_pattern_compiled() {
    let config = Find { min_size: Some(10), ..Find::default() };
    let clock = Timestamp { secs: 0, nanos: 0 };
    let filter = Filter::assemble(&config, Some(Pattern::new("^x")), None).unwrap();
    assert!(filter.matches(&record("x/y", 10, clock)));
    assert!(!filter.matches(&record("y/x", 10, clock)));
    assert!(!filter.matches(&record("x/y", 9, clock)));
    let both = Filter::assemble(&config, Some(Pattern::new("^x")), Some(Pattern::new("y$")));
    assert!(both.unwrap().matches(&record("x/y", 10, clock)));
    assert!(Filter::assemble(&config, None, None).unwrap().matches(&record("q", 10, clock)));
}

#[test]
fn assemble_fails_when_a_pattern_did_not_compile() {
    let config = Find::default();
    assert_eq!(
        Filter::assemble(&config, Some(Pattern::new("(")), None).err(),
        Some(FindError::InvalidPattern)
    );
    assert_eq!(
        Filter::assemble(&config, Some(Pattern::new("fine")), Some(Pattern::new("["))).err(),
        Some(FindError::InvalidPattern)
    );
    assert_eq!(
        Filter::assemble(&config, None, Some(Err(FindError::InvalidPattern))).err(),
        Some(FindError::InvalidPattern)
    );
}
