//! Texts, ordered maps, documents, durations and properties.

use sutra_engine::batch::{BATCH_LIMIT_DEFAULT, BATCH_LIMIT_MAX};
use sutra_engine::deploy::{source_unreadable, DEPLOY_SOURCE_UNREADABLE};
use sutra_engine::duration::{parse_duration, Duration};
use sutra_engine::engine::wiring_failure;
use sutra_engine::graph::{
    construct_name, DeploymentNodeIndex, Node, NodeKind, ProcessDefinition, ProcessModule,
};
use sutra_engine::json::Json;
use sutra_engine::keyed::{TextMap, TextSet};
use sutra_engine::sources::{parse_bool, parse_properties};
use sutra_engine::text::{
    decimal_text, difference, has_word, is_before, is_white_space, join, parse_i32, parse_unsigned, same_texts,
    split, split_once, strip_prefix, to_lower, to_upper, trim, without_repeats,
};

fn texts(v: &[&str]) -> Vec<String> {
    v.iter().map(|s| s.to_string()).collect()
}

#[test]
fn white_space_is_what_unicode_says() {
    for c in '\0'..=char::MAX {
        assert_eq!(is_white_space(c), c.is_whitespace(), "{c:?}");
    }
}

#[test]
fn texts_are_trimmed_and_split_by_unicode_rules() {
    assert_eq!(trim("  a b \t\n"), "a b");
    assert_eq!(trim("\u{2003}x\u{2003}"), "x", "an em space is white space");
    assert_eq!(trim("   "), "");
    assert_eq!(split("a,b,,c", ','), texts(&["a", "b", "", "c"]));
    assert_eq!(split_once("k=v=w", '='), Some(("k".to_string(), "v=w".to_string())));
    assert_eq!(split_once("kv", '='), None);
    assert_eq!(strip_prefix("urn:x", "urn:").as_deref(), Some("x"));
    assert_eq!(strip_prefix("x", "urn:"), None);
    assert_eq!(to_lower("ÄbC"), "Äbc", "only ASCII letters change");
    assert_eq!(to_upper("aß"), "Aß");
    assert_eq!(join(&texts(&["a", "b"]), ", "), "a, b");
    assert!(has_word("ops\tadmin", "admin"));
    assert!(!has_word("administrator", "admin"));
}

#[test]
fn texts_are_ordered_by_their_bytes() {
    assert!(is_before("", "a"));
    assert!(is_before("Z", "a"));
    assert!(is_before("a", "ab"));
    assert!(!is_before("a", "a"));
    assert!(is_before("z", "ä"));
}

#[test]
fn numbers_are_read_as_std_reads_them() {
    assert_eq!(parse_unsigned("0042", 65535), Some(42));
    assert_eq!(parse_unsigned("+7", 65535), Some(7));
    assert_eq!(parse_unsigned("65536", 65535), None);
    assert_eq!(parse_unsigned("", 65535), None);
    assert_eq!(parse_unsigned("-1", 65535), None);
    assert_eq!(parse_unsigned("18446744073709551615", u64::MAX), Some(u64::MAX));
    assert_eq!(parse_unsigned("18446744073709551616", u64::MAX), None);
    assert_eq!(parse_i32("-2147483648"), Some(i32::MIN));
    assert_eq!(parse_i32("2147483648"), None);
    assert_eq!(parse_i32("3.5"), None);
    assert_eq!(decimal_text(0), "0");
    assert_eq!(decimal_text(1200), "1200");
}

#[test]
fn lists_are_compared_and_reduced() {
    assert_eq!(difference(&texts(&["a", "b", "a"]), &texts(&["b"])), texts(&["a", "a"]));
    assert_eq!(without_repeats(&texts(&["b", "a", "b"])), texts(&["b", "a"]));
    assert!(same_texts(&texts(&["a"]), &texts(&["a"])));
    assert!(!same_texts(&texts(&["a"]), &texts(&["a", "b"])));
}

#[test]
fn a_map_keeps_its_keys_in_order() {
    let mut m = TextMap::new();
    m.insert("b".to_string(), 1);
    m.insert("a".to_string(), 2);
    m.insert("b".to_string(), 3);
    assert_eq!(m.len(), 2);
    assert_eq!((m.key_at(0).as_str(), *m.value_at(0)), ("a", 2));
    assert_eq!(m.get("b"), Some(&3));
    m.remove("a");
    assert!(!m.contains_key("a"));
    m.insert("c".to_string(), 4);
    let mut keep = TextSet::new();
    keep.insert("c".to_string());
    keep.insert("c".to_string());
    assert_eq!(keep.len(), 1);
    m.retain(&keep);
    assert_eq!(m.len(), 1);
    assert_eq!(m.key_at(0), "c");
    assert_eq!(keep.duplicate().at(0), "c");
}

#[test]
fn a_document_keeps_the_last_member_of_a_name() {
    let j = Json::object().with("a", Json::count(1)).with("a", Json::text("x"));
    assert_eq!(j.get_text("a").unwrap(), "x");
    assert_eq!(j.get("b"), None);
    assert_eq!(j.duplicate(), j);
    assert_eq!(Json::optional(&None), Json::Null);
}

fn millis(number: &str, unit: u64) -> Option<u64> {
    let parsed = number.parse::<f64>().ok()?;
    Some((parsed * unit as f64).round() as u64)
}

#[test]
fn durations_are_whole_milliseconds() {
    assert_eq!(parse_duration(" 90 ", &millis), Ok(Duration::from_secs(90)));
    assert_eq!(parse_duration("P1DT1S", &millis), Ok(Duration::from_secs(86_401)));
    let half = parse_duration("PT1.5S", &millis).unwrap();
    assert_eq!((half.as_secs(), half.subsec_nanos()), (1, 500_000_000));
    assert_eq!(
        parse_duration("PT1..2S", &millis),
        Err("invalid number '1..2'".to_string())
    );
    assert_eq!(
        parse_duration("PT5", &millis),
        Err("dangling number '5' (missing unit)".to_string())
    );
    assert_eq!(parse_duration("PT1D", &millis), Err("unexpected character 'D'".to_string()));
    assert_eq!(Duration::from_millis(1500).to_debug_text(), "1.5s");
    assert!(Duration::from_millis(999).shorter_than(&Duration::from_secs(1)));
}

#[test]
fn properties_skip_comments_and_keep_the_last_value() {
    let m = parse_properties("# c\n! c\n\n a = 1 \nb=x=y\nnoise\na=2\r\n");
    assert_eq!(m.len(), 2);
    assert_eq!(m.get("a").map(String::as_str), Some("2"));
    assert_eq!(m.get("b").map(String::as_str), Some("x=y"));
}

#[test]
fn booleans_are_read_leniently() {
    for raw in ["true", "1", "YES", " on "] {
        assert_eq!(parse_bool(raw, "k"), Ok(true), "{raw}");
    }
    for raw in ["false", "0", "no", "Off"] {
        assert_eq!(parse_bool(raw, "k"), Ok(false), "{raw}");
    }
    let err = parse_bool("Maybe", "k").unwrap_err();
    assert_eq!(err.message(), "k: 'maybe' is not a boolean (true/false)");
}

#[test]
fn failures_name_what_failed() {
    assert!(source_unreadable("/d", "denied").contains(DEPLOY_SOURCE_UNREADABLE));
    assert!(source_unreadable("/d", "denied").contains("denied"));
    assert_eq!(wiring_failure("kafka", "C1", "down"), "kafka channel wiring failed: [C1] down");
    assert!(BATCH_LIMIT_DEFAULT <= BATCH_LIMIT_MAX);
}

#[test]
fn a_graph_is_indexed_with_its_inner_processes() {
    let leaf = |id: &str, kind: NodeKind| Node { id: id.to_string(), wait_state: false, kind };
    let inner = ProcessDefinition {
        id: "inner".to_string(),
        nodes: vec![leaf("inner-wait", NodeKind::UserTask)],
        retry_policies: vec![],
        continue_replies: vec![],
        coverage_paths: vec![],
    };
    let outer = ProcessDefinition {
        id: "outer".to_string(),
        nodes: vec![
            leaf("start", NodeKind::StartEvent),
            leaf("sub", NodeKind::SubProcess(Box::new(inner))),
            leaf("each", NodeKind::MultiInstance(Box::new(leaf("each", NodeKind::ServiceTask)))),
        ],
        retry_policies: vec!["each".to_string()],
        continue_replies: vec![],
        coverage_paths: vec![],
    };
    assert_eq!(construct_name(&outer.nodes[0]), "startEvent");
    let index = DeploymentNodeIndex::of_modules(&vec![ProcessModule { processes: vec![outer] }]);
    assert_eq!(index.process_ids(), texts(&["outer"]));
    let process = index.process("outer").expect("indexed");
    assert!(process.get("start").unwrap().start_event);
    assert!(process.get("inner-wait").is_some(), "inner nodes are in the outer index");
    assert!(index.process("inner").is_none());
}
