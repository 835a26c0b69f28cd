//! The statements that an assessment answers, keyed by name.
use vstd::prelude::*;
use crate::sorted::{collect, collect_entries, keyed, lemma_collect_map, map_vals, sorted_keys};
use crate::value::{models, pair_models, SpecValue, Value};

pub mod general;

verus! {

/// A statement put to the assessor.
#[derive(Debug)]
pub enum Statement {
    /// A yes/no question.
    Question(String),
    /// A question with labelled choices.
    Choice(String, Vec<(String, Value)>),
    /// A question rated against ordered levels.
    Score(String, Vec<Value>),
}

/// The mathematical form of a [`Statement`].
pub enum SpecStatement {
    Question(Seq<char>),
    Choice(Seq<char>, Seq<(Seq<char>, SpecValue)>),
    Score(Seq<char>, Seq<SpecValue>),
}

impl Statement {
    pub open spec fn model(self) -> SpecStatement {
        match self {
            Statement::Question(q) => SpecStatement::Question(q@),
            Statement::Choice(q, choices) => SpecStatement::Choice(q@, pair_models(choices@)),
            Statement::Score(q, levels) => SpecStatement::Score(q@, models(levels@)),
        }
    }

    /// A yes/no question.
    pub fn question(question: &str) -> (res: Statement)
        ensures
            res.model() == SpecStatement::Question(question@),
    {
        Statement::Question(String::from_str(question))
    }

    /// A question with choices given as `(label, description)`; each
    /// description becomes a text value.
    pub fn choice(question: &str, choices: &[(&str, &str)]) -> (res: Statement)
        ensures
            res.model() == SpecStatement::Choice(
                question@,
                choices@.map_values(|p: (&str, &str)| (p.0@, SpecValue::Text(p.1@))),
            ),
    {
        let mut out: Vec<(String, Value)> = Vec::new();
        let mut i: usize = 0;
        while i < choices.len()
            invariant
                0 <= i <= choices@.len(),
                pair_models(out@) =~= choices@.take(i as int).map_values(
                    |p: (&str, &str)| (p.0@, SpecValue::Text(p.1@)),
                ),
            decreases choices@.len() - i,
        {
            let (label, description) = choices[i];
            let ghost before = out@;
            out.push((String::from_str(label), Value::text(description)));
            assert(choices@.take(i + 1) =~= choices@.take(i as int).push(choices@[i as int]));
            assert(pair_models(out@) =~= pair_models(before).push(
                (label@, SpecValue::Text(description@)),
            ));
            i = i + 1;
        }
        assert(choices@.take(choices@.len() as int) =~= choices@);
        Statement::Choice(String::from_str(question), out)
    }

    /// A question rated against ordered levels, each described by a text.
    pub fn score(question: &str, levels: &[&str]) -> (res: Statement)
        ensures
            res.model() == SpecStatement::Score(
                question@,
                levels@.map_values(|s: &str| SpecValue::Text(s@)),
            ),
    {
        let mut out: Vec<Value> = Vec::new();
        let mut i: usize = 0;
        while i < levels.len()
            invariant
                0 <= i <= levels@.len(),
                models(out@) =~= levels@.take(i as int).map_values(|s: &str| SpecValue::Text(s@)),
            decreases levels@.len() - i,
        {
            let ghost before = out@;
            let level = Value::text(levels[i]);
            out.push(level);
            assert(levels@.take(i + 1) =~= levels@.take(i as int).push(levels@[i as int]));
            assert(models(out@) =~= models(before).push(level.model()));
            i = i + 1;
        }
        assert(levels@.take(levels@.len() as int) =~= levels@);
        Statement::Score(String::from_str(question), out)
    }
}

/// Statements keyed by name, in mathematical form.
pub open spec fn statement_models(s: Seq<(String, Statement)>) -> Seq<(Seq<char>, SpecStatement)> {
    map_vals(keyed(s), |st: Statement| st.model())
}

/// Mapping the values keeps a list sorted.
pub proof fn lemma_sorted_map_vals<A, B>(s: Seq<(Seq<char>, A)>, f: spec_fn(A) -> B)
    requires
        sorted_keys(s),
    ensures
        sorted_keys(map_vals(s, f)),
{
    let m = map_vals(s, f);
    assert forall|i: int, j: int| 0 <= i < j < m.len() implies crate::text::key_lt(
        #[trigger] m[i].0,
        #[trigger] m[j].0,
    ) by {
        assert(m[i].0 == s[i].0);
        assert(m[j].0 == s[j].0);
    }
}

/// Statements by name, in increasing name order.
pub struct Query {
    statements: Vec<(String, Statement)>,
}

impl Query {
    #[verifier::type_invariant]
    spec fn inv(self) -> bool {
        sorted_keys(keyed(self.statements@))
    }

    /// The statements by name.
    pub closed spec fn model(self) -> Seq<(Seq<char>, SpecStatement)> {
        statement_models(self.statements@)
    }

    /// Collects statements by name; a name given twice keeps its last
    /// statement.
    pub fn new(statements: Vec<(String, Statement)>) -> (res: Query)
        ensures
            res.model() == collect(statement_models(statements@)),
    {
        let ghost given = statements@;
        let entries = collect_entries(statements);
        proof {
            lemma_collect_map(keyed(given), |st: Statement| st.model());
        }
        Query { statements: entries }
    }

    /// The statements in increasing name order.
    pub fn statements(&self) -> (res: &Vec<(String, Statement)>)
        ensures
            statement_models(res@) == self.model(),
            sorted_keys(self.model()),
    {
        proof {
            use_type_invariant(self);
            lemma_sorted_map_vals(keyed(self.statements@), |st: Statement| st.model());
        }
        &self.statements
    }
}

impl Default for Query {
    /// The general queries.
    fn default() -> (res: Query)
        ensures
            res.model() == general::general_queries_spec(),
    {
        general::general_queries()
    }
}

} // verus!
