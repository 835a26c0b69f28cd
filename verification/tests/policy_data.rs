use sentinel::policy::{default_data, policy_documents, PolicyError, POLICY_ENTRYPOINT};
use sentinel::thresholds::{
    default_thresholds, split_threshold, thresholds_document, Threshold, Thresholds,
};
use sentinel::value::Value;

fn text(s: &str) -> Value {
    Value::Text(s.to_string())
}

fn entry(k: &str, v: Value) -> (String, Value) {
    (k.to_string(), v)
}

fn number(x: f64) -> Value {
    Value::Number(x.to_bits())
}

#[test]
fn object_sorts_keys_and_keeps_the_last_value() {
    let v = Value::object(vec![
        entry("b", text("1")),
        entry("a", text("2")),
        entry("b", text("3")),
        entry("c", Value::Null),
    ]);
    assert_eq!(
        v,
        Value::Object(vec![entry("a", text("2")), entry("b", text("3")), entry("c", Value::Null)])
    );
}

#[test]
fn text_array_holds_texts_in_order() {
    assert_eq!(Value::text_array(&["x", "y"]), Value::Array(vec![text("x"), text("y")]));
}

#[test]
fn default_data_lists_dispositions_and_flags() {
    assert_eq!(
        default_data(),
        Value::Object(vec![
            entry("dispositions", Value::Array(vec![text("proceed"), text("canary"), text("human-review")])),
            entry(
                "flags",
                Value::Array(vec![
                    text("security-review"),
                    text("data-review"),
                    text("api-review"),
                    text("rollback-plan-required"),
                ])
            ),
        ])
    );
}

#[test]
fn default_thresholds_are_nested_twice() {
    let inner = Value::Object(vec![
        entry("api-review", number(0.75)),
        entry("data-review", number(0.75)),
        entry("rollback-plan-required", number(2.0)),
        entry("security-review", number(0.7)),
    ]);
    assert_eq!(
        default_thresholds(),
        Value::Object(vec![entry("thresholds", Value::Object(vec![entry("thresholds", inner)]))])
    );
}

#[test]
fn threshold_bits_are_the_doubles() {
    assert_eq!(f64::from_bits(sentinel::thresholds::BITS_0_70), 0.7);
    assert_eq!(f64::from_bits(sentinel::thresholds::BITS_0_75), 0.75);
    assert_eq!(f64::from_bits(sentinel::thresholds::BITS_2_00), 2.0);
}

#[test]
fn thresholds_keep_the_last_value_of_a_name() {
    let t = Thresholds::from_thresholds(vec![
        Threshold { name: "z".to_string(), value: 1.0f64.to_bits() },
        Threshold { name: "a".to_string(), value: 2.0f64.to_bits() },
        Threshold { name: "z".to_string(), value: 3.0f64.to_bits() },
    ]);
    assert_eq!(
        *t.thresholds(),
        vec![("a".to_string(), 2.0f64.to_bits()), ("z".to_string(), 3.0f64.to_bits())]
    );
    assert_eq!(
        t.to_value(),
        Value::Object(vec![entry(
            "thresholds",
            Value::Object(vec![entry("a", number(2.0)), entry("z", number(3.0))])
        )])
    );
    let p = Thresholds::from_pairs(&[("b", 1), ("a", 2), ("b", 3)]);
    assert_eq!(*p.thresholds(), vec![("a".to_string(), 2), ("b".to_string(), 3)]);
}

#[test]
fn threshold_text_splits_at_the_equals_sign() {
    assert_eq!(
        split_threshold("security-review=0.9"),
        Ok(("security-review".to_string(), "0.9".to_string()))
    );
    assert_eq!(split_threshold("=").unwrap(), ("".to_string(), "".to_string()));
    assert_eq!(
        split_threshold("a=b=c"),
        Err("Invalid threshold format: a=b=c".to_string())
    );
    assert_eq!(split_threshold("abc"), Err("Invalid threshold format: abc".to_string()));
}

#[test]
fn policy_documents_come_in_order() {
    let none = Thresholds::from_pairs(&[]);
    let docs = policy_documents(Some(text("given")), Some(text("inputs")), &none);
    assert_eq!(docs.len(), 4);
    assert_eq!(docs[0], text("given"));
    assert_eq!(docs[1], text("inputs"));
    assert_eq!(docs[2], default_data());
    assert_eq!(docs[3], default_thresholds());
    let docs = policy_documents(None, None, &none);
    assert_eq!(docs, vec![default_data(), default_thresholds()]);
    let docs = policy_documents(None, Some(text("inputs")), &none);
    assert_eq!(docs, vec![text("inputs"), default_data(), default_thresholds()]);
}

#[test]
fn no_given_thresholds_document_is_the_defaults() {
    assert_eq!(thresholds_document(&Thresholds::from_pairs(&[])), default_thresholds());
}

#[test]
fn given_thresholds_override_the_defaults() {
    let given = Thresholds::from_thresholds(vec![
        Threshold { name: "security-review".to_string(), value: 0.5f64.to_bits() },
        Threshold { name: "extra".to_string(), value: 1.5f64.to_bits() },
        Threshold { name: "security-review".to_string(), value: 0.9f64.to_bits() },
    ]);
    let inner = Value::Object(vec![
        entry("api-review", number(0.75)),
        entry("data-review", number(0.75)),
        entry("extra", number(1.5)),
        entry("rollback-plan-required", number(2.0)),
        entry("security-review", number(0.9)),
    ]);
    assert_eq!(
        thresholds_document(&given),
        Value::Object(vec![entry("thresholds", Value::Object(vec![entry("thresholds", inner)]))])
    );
    let docs = policy_documents(None, None, &given);
    assert_eq!(docs[1], thresholds_document(&given));
}

#[test]
fn policy_error_messages() {
    assert_eq!(PolicyError::PolicyLoad("bad".to_string()).message(), "Failed to load policy: bad");
    assert_eq!(PolicyError::DataLoad("bad".to_string()).message(), "Failed to add data");
    assert_eq!(PolicyError::PolicyEngine("bad".to_string()).message(), "Failed to compile policy: bad");
    assert_eq!(PolicyError::Evaluation("bad".to_string()).message(), "Failed to evaluate policy: bad");
    assert_eq!(POLICY_ENTRYPOINT, "data.sentinel.result");
}
