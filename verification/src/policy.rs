//! What the policy engine is loaded with: the policy itself, the data
//! documents in the order the engine takes them, and the errors of each step.
use vstd::prelude::*;
use crate::sorted::{lemma_collect_sorted_is_identity, sorted_keys};
use crate::text::key_lt;
use crate::thresholds::{thresholds_document, thresholds_document_spec, Thresholds};
use crate::value::{lemma_array_model, models, pair_models, SpecValue, Value};

verus! {

/// The rule whose value the policy's evaluation yields.
pub const POLICY_ENTRYPOINT: &'static str = "data.sentinel.result";

/// A policy in Rego: the name it is loaded under and its source text.
pub struct Policy {
    pub name: String,
    pub contents: String,
}

/// The step of loading and running a policy that failed, with the engine's
/// description of the failure.
pub enum PolicyError {
    PolicyLoad(String),
    DataLoad(String),
    PolicyEngine(String),
    Evaluation(String),
}

impl PolicyError {
    /// The text that the error displays.
    pub open spec fn message_spec(self) -> Seq<char> {
        match self {
            PolicyError::PolicyLoad(e) => "Failed to load policy: "@ + e@,
            PolicyError::DataLoad(_) => "Failed to add data"@,
            PolicyError::PolicyEngine(e) => "Failed to compile policy: "@ + e@,
            PolicyError::Evaluation(e) => "Failed to evaluate policy: "@ + e@,
        }
    }

    /// The text that the error displays.
    pub fn message(&self) -> (res: String)
        ensures
            res@ == self.message_spec(),
    {
        match self {
            PolicyError::PolicyLoad(e) => String::from_str("Failed to load policy: ").concat(e.as_str()),
            PolicyError::DataLoad(_) => String::from_str("Failed to add data"),
            PolicyError::PolicyEngine(e) => String::from_str("Failed to compile policy: ").concat(
                e.as_str(),
            ),
            PolicyError::Evaluation(e) => String::from_str("Failed to evaluate policy: ").concat(
                e.as_str(),
            ),
        }
    }
}

/// The text values of a list of literals.
pub open spec fn text_models(items: Seq<Seq<char>>) -> Seq<SpecValue> {
    items.map_values(|s: Seq<char>| SpecValue::Text(s))
}

/// The dispositions and flags that every policy can refer to.
pub open spec fn default_data_spec() -> SpecValue {
    SpecValue::Object(
        seq![
            ("dispositions"@, SpecValue::Array(
                text_models(seq!["proceed"@, "canary"@, "human-review"@]),
            )),
            ("flags"@, SpecValue::Array(
                text_models(
                    seq![
                        "security-review"@,
                        "data-review"@,
                        "api-review"@,
                        "rollback-plan-required"@,
                    ],
                ),
            )),
        ],
    )
}

/// The data that every policy is loaded with:
/// `{"dispositions": ["proceed", "canary", "human-review"], "flags":
/// ["security-review", "data-review", "api-review", "rollback-plan-required"]}`.
pub fn default_data() -> (res: Value)
    ensures
        res.model() == default_data_spec(),
{
    let dispositions = vec![Value::text("proceed"), Value::text("canary"), Value::text("human-review")];
    let flags = vec![
        Value::text("security-review"),
        Value::text("data-review"),
        Value::text("api-review"),
        Value::text("rollback-plan-required"),
    ];
    let ghost dm = models(dispositions@);
    let ghost fm = models(flags@);
    assert(dm =~= text_models(seq!["proceed"@, "canary"@, "human-review"@]));
    assert(fm =~= text_models(
        seq!["security-review"@, "data-review"@, "api-review"@, "rollback-plan-required"@],
    ));
    let d = Value::Array(dispositions);
    let f = Value::Array(flags);
    proof {
        lemma_array_model(dispositions);
        lemma_array_model(flags);
    }
    let pairs = vec![(String::from_str("dispositions"), d), (String::from_str("flags"), f)];
    proof {
        reveal_strlit("dispositions");
        reveal_strlit("flags");
        assert(key_lt("dispositions"@, "flags"@));
        let expected = default_data_spec()->Object_0;
        assert(pair_models(pairs@) =~= expected);
        assert(sorted_keys(expected));
        lemma_collect_sorted_is_identity(expected);
    }
    Value::object(pairs)
}

/// The models of the data documents for a policy: the given data, if any,
/// then the inputs, if any, then the default data, then the thresholds.
pub open spec fn documents_spec(
    data: Option<SpecValue>,
    inputs: Option<SpecValue>,
    defaults: SpecValue,
    thresholds: SpecValue,
) -> Seq<SpecValue> {
    let given = match data {
        Some(d) => seq![d],
        None => Seq::empty(),
    };
    let extra = match inputs {
        Some(i) => seq![i],
        None => Seq::empty(),
    };
    given + extra + seq![defaults, thresholds]
}

/// The model of an optional value.
pub open spec fn option_model(v: Option<Value>) -> Option<SpecValue> {
    match v {
        Some(d) => Some(d.model()),
        None => None,
    }
}

/// The data documents that the policy engine takes, in the order it takes
/// them: the data given, if any, then the inputs, if any, then
/// [`default_data`], then the thresholds document with the given thresholds
/// over the defaults ([`thresholds_document`]).
pub fn policy_documents(data: Option<Value>, inputs: Option<Value>, thresholds: &Thresholds) -> (res: Vec<Value>)
    ensures
        models(res@) == documents_spec(
            option_model(data),
            option_model(inputs),
            default_data_spec(),
            thresholds_document_spec(thresholds.model()),
        ),
        res@.len() == (if data is Some { 1int } else { 0 }) + (if inputs is Some { 1int } else { 0 }) + 2,
        data matches Some(d) ==> res@[0].model() == d.model(),
        inputs matches Some(i) ==> res@[if data is Some { 1int } else { 0 }].model() == i.model(),
        res@[res@.len() - 2].model() == default_data_spec(),
        res@[res@.len() - 1].model() == thresholds_document_spec(thresholds.model()),
{
    let ghost given = data;
    let ghost extra = inputs;
    let mut docs: Vec<Value> = Vec::new();
    match data {
        Some(d) => docs.push(d),
        None => {},
    }
    match inputs {
        Some(i) => docs.push(i),
        None => {},
    }
    let defaults = default_data();
    let document = thresholds_document(thresholds);
    docs.push(defaults);
    docs.push(document);
    assert(models(docs@) =~= documents_spec(
        option_model(given),
        option_model(extra),
        default_data_spec(),
        thresholds_document_spec(thresholds.model()),
    ));
    docs
}

/// The data documents come in a fixed order: the given data first whenever
/// it is given, whatever the inputs; then the inputs when given; then the
/// default data; then the thresholds.  Nothing else is added.
pub proof fn law_policy_documents(
    data: Option<SpecValue>,
    inputs: Option<SpecValue>,
    defaults: SpecValue,
    thresholds: SpecValue,
)
    ensures
        documents_spec(data, inputs, defaults, thresholds).len() == (if data is Some {
            1int
        } else {
            0
        }) + (if inputs is Some {
            1int
        } else {
            0
        }) + 2,
        data matches Some(d) ==> documents_spec(data, inputs, defaults, thresholds)[0] == d,
        inputs matches Some(i) ==> documents_spec(data, inputs, defaults, thresholds)[if data is Some {
            1int
        } else {
            0
        }] == i,
        documents_spec(data, inputs, defaults, thresholds)[documents_spec(
            data,
            inputs,
            defaults,
            thresholds,
        ).len() - 2] == defaults,
        documents_spec(data, inputs, defaults, thresholds)[documents_spec(
            data,
            inputs,
            defaults,
            thresholds,
        ).len() - 1] == thresholds,
{
}

} // verus!
