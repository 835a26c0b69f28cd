use sentinel::assessors::jev::JevError;
use sentinel::assessors::{
    Artifact, Assessment, AssessmentError, DiffEntry, GithubPullRequestAssessment,
    PullRequestDetails, Verdict,
};
use sentinel::queries::general::{general_queries, BLAST_RADIUS_NONE, CATEGORY_QUESTION, PERSISTENT_STATE_QUESTION};
use sentinel::queries::{Query, Statement};
use sentinel::targets::PullRequest;
use sentinel::value::Value;

fn text(s: &str) -> Value {
    Value::Text(s.to_string())
}

fn entry(k: &str, v: Value) -> (String, Value) {
    (k.to_string(), v)
}

fn number(x: f64) -> Value {
    Value::Number(x.to_bits())
}

#[test]
fn general_queries_are_in_name_order() {
    let q = general_queries();
    let names: Vec<&str> = q.statements().iter().map(|(k, _)| k.as_str()).collect();
    assert_eq!(
        names,
        vec![
            "blast_radius",
            "category",
            "external_contract",
            "observable_behavior",
            "persistent_state",
            "restore_complexity",
            "security_boundary",
        ]
    );
    match &q.statements()[4].1 {
        Statement::Question(text) => assert_eq!(text, PERSISTENT_STATE_QUESTION),
        _ => panic!("expected a question"),
    }
    match &q.statements()[1].1 {
        Statement::Choice(question, choices) => {
            assert_eq!(question, CATEGORY_QUESTION);
            assert_eq!(choices.len(), 9);
            assert_eq!(choices[0].0, "behavior_change");
            assert_eq!(choices[8].0, "documentation_only");
        }
        _ => panic!("expected a choice"),
    }
    match &q.statements()[0].1 {
        Statement::Score(_, levels) => {
            assert_eq!(levels.len(), 5);
            assert_eq!(levels[0], text(BLAST_RADIUS_NONE));
        }
        _ => panic!("expected a score"),
    }
    assert!(PERSISTENT_STATE_QUESTION.contains("\n            mutation semantics"));
    assert_eq!(Query::default().statements().len(), 7);
}

#[test]
fn query_keeps_the_last_statement_of_a_name() {
    let q = Query::new(vec![
        ("b".to_string(), Statement::question("first")),
        ("a".to_string(), Statement::score("rate", &["low", "high"])),
        ("b".to_string(), Statement::choice("pick", &[("x", "ex")])),
    ]);
    let s = q.statements();
    assert_eq!(s.len(), 2);
    assert_eq!(s[0].0, "a");
    assert_eq!(s[1].0, "b");
    match &s[1].1 {
        Statement::Choice(question, choices) => {
            assert_eq!(question, "pick");
            assert_eq!(choices, &vec![entry("x", text("ex"))]);
        }
        _ => panic!("expected a choice"),
    }
}

#[test]
fn score_verdict_pairs_probabilities_with_the_legend() {
    let v = Verdict::score(
        1.5f64.to_bits(),
        0.8f64.to_bits(),
        vec![0.1f64.to_bits(), 0.9f64.to_bits(), 0.5f64.to_bits()],
        vec![(3, text("three")), (1, text("one"))],
    );
    match &v {
        Verdict::Score(score, confidence, levels) => {
            assert_eq!(*score, 1.5f64.to_bits());
            assert_eq!(*confidence, 0.8f64.to_bits());
            assert_eq!(levels.len(), 2);
            assert_eq!(levels.keys().copied().collect::<Vec<usize>>(), vec![1, 3]);
            assert_eq!(levels[&1].0, text("one"));
            assert_eq!(levels[&1].1, 0.9f64.to_bits());
            assert_eq!(levels[&3].0, text("three"));
            assert_eq!(levels[&3].1, 0.1f64.to_bits());
        }
        _ => panic!("expected a score"),
    }
}

#[test]
fn verdict_values() {
    assert_eq!(Verdict::Question(0.25f64.to_bits()).into_value(), number(0.25));
    let choice = Verdict::Choice(
        "b".to_string(),
        0.6f64.to_bits(),
        vec![("b".to_string(), 0.6f64.to_bits()), ("a".to_string(), 0.4f64.to_bits())],
    );
    assert_eq!(
        choice.into_value(),
        Value::Object(vec![
            entry("choices", Value::Object(vec![entry("a", number(0.4)), entry("b", number(0.6))])),
            entry("label", text("b")),
            entry("score", number(0.6)),
        ])
    );
    let score = Verdict::score(
        2.0f64.to_bits(),
        0.7f64.to_bits(),
        vec![0.2f64.to_bits(), 0.8f64.to_bits()],
        vec![(2, text("two")), (10, text("ten"))],
    );
    let level = |p: f64, v: &str| Value::Object(vec![entry("score", number(p)), entry("value", text(v))]);
    assert_eq!(
        score.into_value(),
        Value::Object(vec![
            entry("confidence", number(0.7)),
            entry("score", number(2.0)),
            entry("scores", Value::Object(vec![entry("10", level(0.8, "ten")), entry("2", level(0.2, "two"))])),
        ])
    );
    assert_eq!(Verdict::Unknown(Value::Bool(true)).into_value(), Value::Bool(true));
    let repeated = Verdict::score(
        1.0f64.to_bits(),
        0.5f64.to_bits(),
        vec![0.3f64.to_bits(), 0.7f64.to_bits()],
        vec![(4, text("first")), (4, text("second"))],
    );
    assert_eq!(
        repeated.into_value(),
        Value::Object(vec![
            entry("confidence", number(0.5)),
            entry("score", number(1.0)),
            entry("scores", Value::Object(vec![entry("4", level(0.7, "second"))])),
        ])
    );
}

#[test]
fn assessment_pairs_statements_with_answers_in_name_order() {
    let query = Query::new(vec![
        ("z".to_string(), Statement::question("last")),
        ("a".to_string(), Statement::question("first")),
        ("m".to_string(), Statement::question("middle")),
    ]);
    let artifact = Artifact::Diff("diff text".to_string());
    let answers = vec![Verdict::Question(0.1f64.to_bits()), Verdict::Question(0.9f64.to_bits())];
    let assessment = Assessment::from_answers(&query, answers, &artifact);
    assert_eq!(assessment.verdicts().len(), 2);
    assert_eq!(assessment.verdicts()[0].0, "a");
    assert_eq!(assessment.verdicts()[1].0, "m");
    match assessment.verdicts()[1].1 .0 {
        Statement::Question(q) => assert_eq!(q, "middle"),
        _ => panic!("expected a question"),
    }
    match assessment.artifact() {
        Artifact::Diff(d) => assert_eq!(d, "diff text"),
        _ => panic!("expected a diff"),
    }
    assert_eq!(
        assessment.into_value(),
        Value::Object(vec![entry("a", number(0.1)), entry("m", number(0.9))])
    );
}

#[test]
fn pull_request_assessment_joins_patches() {
    let details = PullRequestDetails {
        title: Some("Title".to_string()),
        body: None,
        files: vec![
            DiffEntry { filename: "a.rs".to_string(), patch: Some("+a".to_string()) },
            DiffEntry { filename: "b.bin".to_string(), patch: None },
            DiffEntry { filename: "c.rs".to_string(), patch: Some("-c".to_string()) },
        ],
    };
    let request = PullRequest {
        provider: "github".to_string(),
        owner: "octo".to_string(),
        repo: "widgets".to_string(),
        pr_number: 5,
    };
    let a = GithubPullRequestAssessment::from_details(details, request);
    assert_eq!(a.owner, "octo");
    assert_eq!(a.repo, "widgets");
    assert_eq!(a.pr_number, 5);
    assert_eq!(a.title, Some("Title".to_string()));
    assert_eq!(a.description, None);
    assert_eq!(a.changed_files, vec!["a.rs", "b.bin", "c.rs"]);
    assert_eq!(a.diff, "+a\n\n-c");
}

#[test]
fn assessment_error_messages() {
    assert_eq!(
        AssessmentError::JevError(JevError::MissingJevApiKey).message(),
        "JEV error: Missing JEV API key"
    );
    assert_eq!(
        AssessmentError::JevError(JevError::ClientError("timeout".to_string())).message(),
        "JEV error: JEV client error: timeout"
    );
    assert_eq!(JevError::ConfigLoadError("x".to_string()).message(), "Unable to load config: x");
    assert_eq!(
        JevError::EntryConversionError("y".to_string()).message(),
        "unable to convert to Jev entry: y"
    );
}
