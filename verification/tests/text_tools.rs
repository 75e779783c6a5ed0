//! The classifier, the translator, the pretty printer and the exact
//! decimal rendering.

use mcp_chroma::classifier::AutoClassifier;
use mcp_chroma::json::Json;
use mcp_chroma::num::{i64_to_string, micros_to_string, u64_to_string};
use mcp_chroma::pretty::to_pretty_string;
use mcp_chroma::tools::{ThoughtData, process_thought, validate_thought_data};

fn s(text: &str) -> String {
    text.to_string()
}

#[test]
fn purpose_scope_difficulty_follow_keywords() {
    let c = AutoClassifier::new();
    // The match is on the lowercased text, so uppercase input must hit too.
    assert_eq!(c.suggest_purpose("Industry STANDARD practices"), "tieu_chuan");
    assert_eq!(c.suggest_purpose("a tutorial for new users"), "tai_lieu_hoc");
    assert_eq!(c.suggest_purpose("nothing special"), "tong_quat");
    assert_eq!(c.suggest_scope("Python data tooling"), "ngon_ngu_python");
    assert_eq!(c.suggest_scope("the backend stack"), "backend");
    assert_eq!(c.suggest_scope("plain prose"), "tong_quat");
    assert_eq!(c.suggest_difficulty("an ADVANCED enterprise setup"), "nang_cao");
    assert_eq!(c.suggest_difficulty("a beginner introduction"), "co_ban");
    assert_eq!(c.suggest_difficulty("something else"), "trung_binh");
}

#[test]
fn classifier_tables_are_populated() {
    let c = AutoClassifier::new();
    assert_eq!(c.categories.len(), 7);
    assert_eq!(c.categories[0].0, "lap_trinh");
    assert_eq!(c.categories[0].1.len(), 12);
    assert_eq!(c.purposes.len(), 6);
    assert_eq!(c.scopes.len(), 6);
    assert_eq!(c.difficulty_levels.len(), 4);
}

#[test]
fn language_detection_counts_diacritics() {
    let c = AutoClassifier::new();
    assert_eq!(c.detect_language("plain english text"), "english");
    assert_eq!(c.detect_language("lập trình và bảo mật"), "vietnamese");
    // Digits are not alphabetic, so one diacritic among digits is enough.
    assert_eq!(c.detect_language("à 0123456789"), "vietnamese");
    assert_eq!(c.detect_language(""), "english");
}

#[test]
fn translation_substitutes_known_words() {
    let c = AutoClassifier::new();
    let r = c.translate_text("database security", "vietnamese").expect("translate");
    assert_eq!(r.detected_language, "english");
    assert_eq!(r.translated_text, "cơ sở dữ liệu bảo mật");
    assert_eq!(r.original_text, "database security");
    // Unknown words pass through; the lookup is by lowercased form.
    let r2 = c.translate_text("Database zzz", "vietnamese").expect("translate");
    assert_eq!(r2.translated_text, "cơ sở dữ liệu zzz");
    // A text already in the target language is untouched.
    let r3 = c.translate_text("plain words", "english").expect("translate");
    assert_eq!(r3.translated_text, "plain words");
}

#[test]
fn smart_tags_and_dynamic_collections() {
    let c = AutoClassifier::new();
    let tags = c.generate_smart_tags("a beginner docker tutorial");
    assert_eq!(
        tags,
        vec![s("tech:docker"), s("level:beginner"), s("type:tutorial")]
    );
    let tags2 = c.generate_smart_tags("plain text");
    assert_eq!(tags2, vec![s("level:intermediate")]);
    let sugg = c.suggest_dynamic_collections("api documentation with a bug");
    assert_eq!(sugg, vec![s("troubleshooting"), s("api_documentation")]);
}

#[test]
fn pretty_printing_is_exact() {
    let j = Json::Obj(vec![
        (s("a"), Json::Int(-5)),
        (s("b"), Json::Arr(vec![Json::Bool(true), Json::Null])),
        (s("c"), Json::Str(s("quote \" and\nline"))),
        (s("d"), Json::Obj(vec![])),
    ]);
    let expected = "{\n  \"a\": -5,\n  \"b\": [\n    true,\n    null\n  ],\n  \"c\": \"quote \\\" and\\nline\",\n  \"d\": {}\n}";
    assert_eq!(to_pretty_string(&j), expected);
}

#[test]
fn decimal_rendering_is_exact() {
    assert_eq!(u64_to_string(0), "0");
    assert_eq!(u64_to_string(907), "907");
    assert_eq!(i64_to_string(-42), "-42");
    assert_eq!(micros_to_string(0), "0.000000");
    assert_eq!(micros_to_string(333334), "0.333334");
    assert_eq!(micros_to_string(2000000), "2.000000");
    assert_eq!(micros_to_string(-500000), "-0.500000");
}

#[test]
fn thoughts_are_validated_and_acknowledged() {
    let ok = ThoughtData {
        session_id: s("sess"),
        thought: s("first"),
        thought_number: 3,
        total_thoughts: 2,
        next_thought_needed: true,
        is_revision: None,
        revises_thought: None,
        branch_from_thought: None,
        branch_id: None,
        needs_more_thoughts: None,
    };
    assert!(validate_thought_data(&ok).is_ok());
    let resp = process_thought(ok);
    // The total is raised to the step number when the step ran past it.
    assert_eq!(resp.total_thoughts, 3);
    assert!(resp.error.is_none());
    let bad = ThoughtData {
        session_id: s(""),
        thought: s("first"),
        thought_number: 1,
        total_thoughts: 1,
        next_thought_needed: false,
        is_revision: None,
        revises_thought: None,
        branch_from_thought: None,
        branch_id: None,
        needs_more_thoughts: None,
    };
    let resp2 = process_thought(bad);
    assert_eq!(resp2.error.as_deref(), Some("Invalid sessionId: must be provided"));
    assert_eq!(resp2.status.as_deref(), Some("failed"));
}
