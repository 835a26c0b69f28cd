//! The general queries: the statements that every change is assessed on.
use vstd::prelude::*;
use crate::sorted::{last_value, lemma_collect_equals, lemma_sorted_by_neighbours, lookup};
use crate::text::key_lt;
use crate::value::SpecValue;
use super::{statement_models, Query, SpecStatement, Statement};

verus! {

pub const PERSISTENT_STATE_QUESTION: &'static str = "Does this change alter the stored representation, constraints, interpretation, lifecycle,
            mutation semantics, or deletion semantics of persistent application data, rather than only
            changing how existing data is read or queried?";

pub const OBSERVABLE_BEHAVIOR_QUESTION: &'static str = "Could this change alter behavior observable by users, callers, or other components, even
            if no public API or interface signature changes?";

pub const EXTERNAL_CONTRACT_QUESTION: &'static str = "Does this change alter a documented or de facto external interface boundary, such as a
            public API signature, protocol, message format, event schema, serialized representation,
            command-line interface, or externally consumed configuration contract?";

pub const SECURITY_BOUNDARY_QUESTION: &'static str = "Does this change alter authentication, authorization, identity, permissions, trust
            boundaries, credential handling, or another security-sensitive boundary?";

pub const CATEGORY_QUESTION: &'static str = "Which category best describes the primary operational nature of this change?";

pub const BEHAVIOR_CHANGE_DESCRIPTION: &'static str = "Changes runtime behavior observable by users, callers, or other systems.";

pub const DATA_MODEL_CHANGE_DESCRIPTION: &'static str = "Changes persistent data structure, representation, constraints, interpretation, or lifecycle.";

pub const EXTERNAL_CONTRACT_CHANGE_DESCRIPTION: &'static str = "Changes an API, protocol, event, message format, or another externally consumed interface.";

pub const INFRASTRUCTURE_CHANGE_DESCRIPTION: &'static str = "Changes deployment, runtime infrastructure, networking, configuration, build, or operational environment.";

pub const SECURITY_CHANGE_DESCRIPTION: &'static str = "Primarily changes authentication, authorization, identity, permissions, credentials, or trust boundaries.";

pub const INTERNAL_REFACTOR_DESCRIPTION: &'static str = "Changes internal implementation or code organization without intentionally changing observable runtime behavior.";

pub const OBSERVABILITY_CHANGE_DESCRIPTION: &'static str = "Primarily changes logging, metrics, tracing, monitoring, alerting, or diagnostics.";

pub const TEST_ONLY_DESCRIPTION: &'static str = "Changes only tests, fixtures, test data, or test infrastructure.";

pub const DOCUMENTATION_ONLY_DESCRIPTION: &'static str = "Changes only documentation, comments, examples, or other non-executable material.";

pub const BLAST_RADIUS_QUESTION: &'static str = "If this change contains a serious defect, how broad is the plausible production impact?";

pub const BLAST_RADIUS_NONE: &'static str = "No meaningful production impact.";

pub const BLAST_RADIUS_NARROW: &'static str = "Impact is limited to a narrow feature, code path, or small subset of users.";

pub const BLAST_RADIUS_MATERIAL: &'static str = "Impact could materially affect a major feature, service capability, or significant subset of users.";

pub const BLAST_RADIUS_BROAD: &'static str = "Impact could broadly affect the service, multiple components, or a large portion of users.";

pub const BLAST_RADIUS_SEVERE: &'static str = "Impact could cause severe system-wide, security, financial, or data-integrity consequences.";

pub const RESTORE_COMPLEXITY_QUESTION: &'static str = "How operationally difficult would it be to restore the system to its pre-change state after this change has
             been deployed and exercised?";

pub const RESTORE_REDEPLOY: &'static str = "Redeploying the previous code is sufficient.";

pub const RESTORE_ROUTINE: &'static str = "Minor operational steps may be required, but rollback is routine.";

pub const RESTORE_COORDINATED: &'static str = "Rollback requires coordinated steps, migration handling, or careful verification.";

pub const RESTORE_REPAIR: &'static str = "Production state may require repair, transformation, or cross-service coordination.";

pub const RESTORE_IRRECOVERABLE: &'static str = "The previous state may not be reliably recoverable because information or state may have been irreversibly changed.";


/// The text values of a list of texts.
pub open spec fn text_values(items: Seq<Seq<char>>) -> Seq<SpecValue> {
    items.map_values(|s: Seq<char>| SpecValue::Text(s))
}

/// The choices of the category statement.
pub open spec fn category_choices() -> Seq<(Seq<char>, SpecValue)> {
    seq![
        ("behavior_change"@, SpecValue::Text(BEHAVIOR_CHANGE_DESCRIPTION@)),
        ("data_model_change"@, SpecValue::Text(DATA_MODEL_CHANGE_DESCRIPTION@)),
        ("external_contract_change"@, SpecValue::Text(EXTERNAL_CONTRACT_CHANGE_DESCRIPTION@)),
        ("infrastructure_change"@, SpecValue::Text(INFRASTRUCTURE_CHANGE_DESCRIPTION@)),
        ("security_change"@, SpecValue::Text(SECURITY_CHANGE_DESCRIPTION@)),
        ("internal_refactor"@, SpecValue::Text(INTERNAL_REFACTOR_DESCRIPTION@)),
        ("observability_change"@, SpecValue::Text(OBSERVABILITY_CHANGE_DESCRIPTION@)),
        ("test_only"@, SpecValue::Text(TEST_ONLY_DESCRIPTION@)),
        ("documentation_only"@, SpecValue::Text(DOCUMENTATION_ONLY_DESCRIPTION@)),
    ]
}

/// The levels of the blast radius statement, lowest first.
pub open spec fn blast_radius_levels() -> Seq<SpecValue> {
    text_values(
        seq![
            BLAST_RADIUS_NONE@,
            BLAST_RADIUS_NARROW@,
            BLAST_RADIUS_MATERIAL@,
            BLAST_RADIUS_BROAD@,
            BLAST_RADIUS_SEVERE@,
        ],
    )
}

/// The levels of the restore complexity statement, lowest first.
pub open spec fn restore_complexity_levels() -> Seq<SpecValue> {
    text_values(
        seq![
            RESTORE_REDEPLOY@,
            RESTORE_ROUTINE@,
            RESTORE_COORDINATED@,
            RESTORE_REPAIR@,
            RESTORE_IRRECOVERABLE@,
        ],
    )
}

/// The general queries as given, in the order they are listed.
pub open spec fn general_query_list() -> Seq<(Seq<char>, SpecStatement)> {
    seq![
        ("persistent_state"@, SpecStatement::Question(PERSISTENT_STATE_QUESTION@)),
        ("observable_behavior"@, SpecStatement::Question(OBSERVABLE_BEHAVIOR_QUESTION@)),
        ("external_contract"@, SpecStatement::Question(EXTERNAL_CONTRACT_QUESTION@)),
        ("security_boundary"@, SpecStatement::Question(SECURITY_BOUNDARY_QUESTION@)),
        ("category"@, SpecStatement::Choice(CATEGORY_QUESTION@, category_choices())),
        ("blast_radius"@, SpecStatement::Score(BLAST_RADIUS_QUESTION@, blast_radius_levels())),
        ("restore_complexity"@, SpecStatement::Score(
            RESTORE_COMPLEXITY_QUESTION@,
            restore_complexity_levels(),
        )),
    ]
}

/// The general queries by name, in increasing name order.
pub open spec fn general_queries_spec() -> Seq<(Seq<char>, SpecStatement)> {
    let l = general_query_list();
    seq![l[5], l[4], l[2], l[1], l[0], l[6], l[3]]
}

/// The general queries: four yes/no questions on persistent state,
/// observable behaviour, external contracts and security boundaries; the
/// category of the change; its blast radius and how hard it is to restore.
pub fn general_queries() -> (res: Query)
    ensures
        res.model() == general_queries_spec(),
{
    let category = Statement::choice(
        CATEGORY_QUESTION,
        &[
            ("behavior_change", BEHAVIOR_CHANGE_DESCRIPTION),
            ("data_model_change", DATA_MODEL_CHANGE_DESCRIPTION),
            ("external_contract_change", EXTERNAL_CONTRACT_CHANGE_DESCRIPTION),
            ("infrastructure_change", INFRASTRUCTURE_CHANGE_DESCRIPTION),
            ("security_change", SECURITY_CHANGE_DESCRIPTION),
            ("internal_refactor", INTERNAL_REFACTOR_DESCRIPTION),
            ("observability_change", OBSERVABILITY_CHANGE_DESCRIPTION),
            ("test_only", TEST_ONLY_DESCRIPTION),
            ("documentation_only", DOCUMENTATION_ONLY_DESCRIPTION),
        ],
    );
    assert(category.model()->Choice_1 =~= category_choices());
    let blast_radius = Statement::score(
        BLAST_RADIUS_QUESTION,
        &[
            BLAST_RADIUS_NONE,
            BLAST_RADIUS_NARROW,
            BLAST_RADIUS_MATERIAL,
            BLAST_RADIUS_BROAD,
            BLAST_RADIUS_SEVERE,
        ],
    );
    assert(blast_radius.model()->Score_1 =~= blast_radius_levels());
    let restore_complexity = Statement::score(
        RESTORE_COMPLEXITY_QUESTION,
        &[
            RESTORE_REDEPLOY,
            RESTORE_ROUTINE,
            RESTORE_COORDINATED,
            RESTORE_REPAIR,
            RESTORE_IRRECOVERABLE,
        ],
    );
    assert(restore_complexity.model()->Score_1 =~= restore_complexity_levels());
    let v = vec![
        (String::from_str("persistent_state"), Statement::question(PERSISTENT_STATE_QUESTION)),
        (String::from_str("observable_behavior"), Statement::question(OBSERVABLE_BEHAVIOR_QUESTION)),
        (String::from_str("external_contract"), Statement::question(EXTERNAL_CONTRACT_QUESTION)),
        (String::from_str("security_boundary"), Statement::question(SECURITY_BOUNDARY_QUESTION)),
        (String::from_str("category"), category),
        (String::from_str("blast_radius"), blast_radius),
        (String::from_str("restore_complexity"), restore_complexity),
    ];
    let ghost given = statement_models(v@);
    proof {
        let l = general_query_list();
        assert(given =~= l);
        reveal_strlit("persistent_state");
        reveal_strlit("observable_behavior");
        reveal_strlit("external_contract");
        reveal_strlit("security_boundary");
        reveal_strlit("category");
        reveal_strlit("blast_radius");
        reveal_strlit("restore_complexity");
        let e = general_queries_spec();
        assert(key_lt(e[0].0, e[1].0));
        assert(key_lt(e[1].0, e[2].0));
        assert(key_lt(e[2].0, e[3].0));
        assert(key_lt(e[3].0, e[4].0));
        assert(key_lt(e[4].0, e[5].0));
        assert(key_lt(e[5].0, e[6].0));
        lemma_sorted_by_neighbours(e);
        assert forall|k: Seq<char>| #[trigger] lookup(e, k) == last_value(l, k) by {
            reveal_with_fuel(lookup, 8);
            reveal_with_fuel(last_value, 8);
            assert(l[0].0 != l[1].0);
            assert(l[0].0 != l[2].0);
            assert(l[0].0 != l[3].0);
            assert(l[0].0 != l[4].0);
            assert(l[0].0 != l[5].0);
            assert(l[0].0 != l[6].0);
            assert(l[1].0 != l[2].0);
            assert(l[1].0 != l[3].0);
            assert(l[1].0 != l[4].0);
            assert(l[1].0 != l[5].0);
            assert(l[1].0 != l[6].0);
            assert(l[2].0 != l[3].0);
            assert(l[2].0 != l[4].0);
            assert(l[2].0 != l[5].0);
            assert(l[2].0 != l[6].0);
            assert(l[3].0 != l[4].0);
            assert(l[3].0 != l[5].0);
            assert(l[3].0 != l[6].0);
            assert(l[4].0 != l[5].0);
            assert(l[4].0 != l[6].0);
            assert(l[5].0 != l[6].0);
        }
        lemma_collect_equals(l, e);
    }
    Query::new(v)
}

} // verus!
