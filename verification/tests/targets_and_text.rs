use sentinel::targets::{parse_target, policy_input_data, Other, PathProbe, PullRequest, Target};
use sentinel::text::{compare_text, decimal_text, has_char, join_texts, parse_u32, split_text, KeyOrder};
use sentinel::value::Value;

fn error_text(res: Result<Target, sentinel::targets::TargetError>) -> String {
    match res {
        Err(e) => e.message(),
        Ok(_) => panic!("expected an error"),
    }
}

#[test]
fn empty_target_is_invalid() {
    assert_eq!(error_text(parse_target("", PathProbe::File)), "Invalid target: Target cannot be empty");
}

#[test]
fn pull_request_target_is_split() {
    match parse_target("github:octo/widgets#42", PathProbe::Missing) {
        Ok(Target::PullRequest(pr)) => {
            assert_eq!(pr.provider, "github");
            assert_eq!(pr.owner, "octo");
            assert_eq!(pr.repo, "widgets");
            assert_eq!(pr.pr_number, 42);
        }
        _ => panic!("expected a pull request"),
    }
}

#[test]
fn pull_request_number_error_names_the_repository_part() {
    assert_eq!(
        error_text(parse_target("github:octo/widgets#forty", PathProbe::Missing)),
        "Invalid target: Invalid pull request number: widgets"
    );
    assert_eq!(
        error_text(parse_target("a:b/c#d/e", PathProbe::Missing)),
        "Invalid target: Invalid pull request number: c"
    );
}

#[test]
fn pull_request_with_extra_parts_reads_the_fourth() {
    match parse_target("gh:o/r#7/x:y", PathProbe::Missing) {
        Ok(Target::PullRequest(pr)) => {
            assert_eq!(pr.repo, "r");
            assert_eq!(pr.pr_number, 7);
        }
        _ => panic!("expected a pull request"),
    }
}

#[test]
fn pull_request_number_accepts_plus_sign() {
    match parse_target("gh:o/r#+9", PathProbe::Missing) {
        Ok(Target::PullRequest(pr)) => assert_eq!(pr.pr_number, 9),
        _ => panic!("expected a pull request"),
    }
}

#[test]
fn non_pull_request_target_follows_the_file_system() {
    match parse_target("src/main.rs", PathProbe::File) {
        Ok(Target::Path(p)) => {
            assert_eq!(p.path, "src/main.rs");
            assert!(p.is_file);
        }
        _ => panic!("expected a path"),
    }
    match parse_target("src", PathProbe::NotFile) {
        Ok(Target::Path(p)) => assert!(!p.is_file),
        _ => panic!("expected a path"),
    }
    match parse_target("a:b#c", PathProbe::Missing) {
        Ok(Target::Other(o)) => assert_eq!(o.identifier, "a:b#c"),
        _ => panic!("expected another identifier"),
    }
}

#[test]
fn identifiers_of_targets() {
    let pr = Target::PullRequest(PullRequest {
        provider: "github".to_string(),
        owner: "octo".to_string(),
        repo: "widgets".to_string(),
        pr_number: 1234,
    });
    assert_eq!(pr.get_identifier(), "github:octo/widgets#1234");
    assert!(pr.as_pull_request().is_some());
    let other = Target::Other(Other { identifier: "anything".to_string() });
    assert_eq!(other.get_identifier(), "anything");
    assert!(other.as_pull_request().is_none());
}

#[test]
fn identifier_of_a_pull_request_parses_back() {
    let request = PullRequest {
        provider: "gitlab".to_string(),
        owner: "team".to_string(),
        repo: "service".to_string(),
        pr_number: u32::MAX,
    };
    let id = Target::PullRequest(request).get_identifier();
    match parse_target(&id, PathProbe::File) {
        Ok(Target::PullRequest(pr)) => {
            assert_eq!(pr.provider, "gitlab");
            assert_eq!(pr.owner, "team");
            assert_eq!(pr.repo, "service");
            assert_eq!(pr.pr_number, u32::MAX);
        }
        _ => panic!("expected a pull request"),
    }
}

#[test]
fn policy_input_names_the_target() {
    let t = Target::Other(Other { identifier: "x".to_string() });
    assert_eq!(
        policy_input_data(&t),
        Value::Object(vec![("target".to_string(), Value::Text("x".to_string()))])
    );
}

#[test]
fn decimal_numerals() {
    assert_eq!(decimal_text(0), "0");
    assert_eq!(decimal_text(7), "7");
    assert_eq!(decimal_text(10), "10");
    assert_eq!(decimal_text(4294967295), "4294967295");
    assert_eq!(decimal_text(u64::MAX), u64::MAX.to_string());
}

#[test]
fn u32_parsing_matches_std() {
    for text in ["0", "007", "+12", "12a", "", "+", "-1", "4294967295", "4294967296", "99999999999", " 1"] {
        assert_eq!(parse_u32(text), text.parse::<u32>().ok(), "{text}");
    }
}

#[test]
fn splitting_matches_std() {
    for text in ["", "a", "a:b/c#d", "::", "a=b=c", "é:ü/ß"] {
        let seps = [':', '/', '#', '='];
        let expected: Vec<String> = text.split(&seps[..]).map(|s| s.to_string()).collect();
        assert_eq!(split_text(text, &seps), expected, "{text}");
    }
}

#[test]
fn joining_matches_std() {
    let parts = vec!["a".to_string(), "".to_string(), "c".to_string()];
    assert_eq!(join_texts(&parts, "\n"), parts.join("\n"));
    assert_eq!(join_texts(&vec![], "\n"), "");
}

#[test]
fn text_order_matches_std() {
    let texts = ["", "a", "ab", "b", "score", "scores", "Z", "é", "z"];
    for a in texts {
        for b in texts {
            let expected = if a < b {
                KeyOrder::Less
            } else if a == b {
                KeyOrder::Equal
            } else {
                KeyOrder::Greater
            };
            assert_eq!(compare_text(a, b), expected, "{a} {b}");
        }
    }
}

#[test]
fn char_search() {
    assert!(has_char("a:b", ':'));
    assert!(!has_char("ab", ':'));
    assert!(!has_char("", ':'));
}
