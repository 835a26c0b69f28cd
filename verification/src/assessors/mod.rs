//! What is assessed, the verdicts an assessor gives on each statement, and
//! the value that the policy receives from an assessment.
use std::collections::BTreeMap;
use vstd::prelude::*;
use crate::levels::{key_order, keys_in_order, lists_keys, put_key, take_key};
use crate::queries::{Query, SpecStatement, Statement};
use crate::sorted::{
    collect, keyed, last_value, lemma_collect_last_wins, lemma_collect_sorted_is_identity,
    lemma_last_value_absent, lemma_last_value_distinct, lemma_lookup_sorted_at, lookup, sorted_keys,
};
use crate::targets::PullRequest;
use crate::text::{decimal, decimal_text, join_spec, join_texts, key_lt, texts};
use crate::thresholds::number_pairs;
use crate::value::{lemma_object_model, member, object_of, pair_models, SpecValue, Value};

pub mod jev;

verus! {

/// Why an assessment failed.
pub enum AssessmentError {
    JevError(jev::JevError),
}

impl AssessmentError {
    /// The text that the error displays.
    pub fn message(&self) -> (res: String)
        ensures
            match self {
                AssessmentError::JevError(e) => res@ == "JEV error: "@ + e.message_spec(),
            },
    {
        match self {
            AssessmentError::JevError(e) => {
                let inner = e.message();
                String::from_str("JEV error: ").concat(inner.as_str())
            },
        }
    }
}

/// A changed file of a pull request: its name and its patch, if the
/// provider gave one.
pub struct DiffEntry {
    pub filename: String,
    pub patch: Option<String>,
}

/// What a provider tells of a pull request.
pub struct PullRequestDetails {
    pub title: Option<String>,
    pub body: Option<String>,
    pub files: Vec<DiffEntry>,
}

/// A pull request at GitHub, as it is put to the assessor.
pub struct GithubPullRequestAssessment {
    pub owner: String,
    pub repo: String,
    pub pr_number: u32,
    pub title: Option<String>,
    pub description: Option<String>,
    pub changed_files: Vec<String>,
    pub diff: String,
}

/// A pull request at some provider.
pub enum PullRequestAssessment {
    Github(GithubPullRequestAssessment),
}

/// What an assessor judges: a pull request, or the text of a diff.
pub enum Artifact {
    PullRequest(PullRequestAssessment),
    Diff(String),
}

/// The names of the changed files.
pub open spec fn file_names(files: Seq<DiffEntry>) -> Seq<Seq<char>> {
    files.map_values(|f: DiffEntry| f.filename@)
}

/// The patches of the changed files, an empty text where there is none.
pub open spec fn file_patches(files: Seq<DiffEntry>) -> Seq<Seq<char>> {
    files.map_values(
        |f: DiffEntry|
            match f.patch {
                Some(p) => p@,
                None => Seq::<char>::empty(),
            },
    )
}

impl GithubPullRequestAssessment {
    /// The pull request as it is put to the assessor: where it is, its title
    /// and description, the names of its changed files and the patches of
    /// those files joined by newlines.
    pub fn from_details(details: PullRequestDetails, request: PullRequest) -> (res: Self)
        ensures
            res.owner@ == request.owner@,
            res.repo@ == request.repo@,
            res.pr_number == request.pr_number,
            res.title == details.title,
            res.description == details.body,
            texts(res.changed_files@) == file_names(details.files@),
            res.diff@ == join_spec(file_patches(details.files@), "\n"@),
    {
        let PullRequestDetails { title, body, files } = details;
        let mut names: Vec<String> = Vec::new();
        let mut patches: Vec<String> = Vec::new();
        let mut i: usize = 0;
        while i < files.len()
            invariant
                0 <= i <= files@.len(),
                texts(names@) =~= file_names(files@).take(i as int),
                texts(patches@) =~= file_patches(files@).take(i as int),
            decreases files@.len() - i,
        {
            let name = files[i].filename.clone();
            let patch = match &files[i].patch {
                Some(p) => p.clone(),
                None => String::new(),
            };
            let ghost names_before = texts(names@);
            let ghost patches_before = texts(patches@);
            names.push(name);
            patches.push(patch);
            assert(file_names(files@).take(i + 1) =~= names_before.push(files@[i as int].filename@));
            assert(file_patches(files@).take(i + 1) =~= patches_before.push(patch@));
            i = i + 1;
        }
        assert(file_names(files@).take(files@.len() as int) =~= file_names(files@));
        assert(file_patches(files@).take(files@.len() as int) =~= file_patches(files@));
        let diff = join_texts(&patches, "\n");
        GithubPullRequestAssessment {
            owner: request.owner,
            repo: request.repo,
            pr_number: request.pr_number,
            title,
            description: body,
            changed_files: names,
            diff,
        }
    }
}

/// An assessor's answer to one statement.  Numbers are the bits of doubles.
pub enum Verdict {
    /// The probability of yes.
    Question(u64),
    /// The chosen label, the confidence in it, and the probability of each
    /// label.
    Choice(String, u64, Vec<(String, u64)>),
    /// The expected score, the confidence in it, and for each level its
    /// description and probability.
    Score(u64, u64, BTreeMap<usize, (Value, u64)>),
    /// An answer of a kind this library does not know, kept as it came.
    Unknown(Value),
}

/// The mathematical form of a [`Verdict`].
pub enum SpecVerdict {
    Question(u64),
    Choice(Seq<char>, u64, Seq<(Seq<char>, u64)>),
    Score(u64, u64, Map<usize, (SpecValue, u64)>),
    Unknown(SpecValue),
}

/// Levels in mathematical form.
pub open spec fn level_models(levels: Map<usize, (Value, u64)>) -> Map<usize, (SpecValue, u64)> {
    levels.map_values(|p: (Value, u64)| (p.0.model(), p.1))
}

/// The map that `(level, entry)` pairs give when put in one after another,
/// as `BTreeMap::from_iter` builds it: a level given twice keeps its last
/// entry.
pub open spec fn levels_map(pairs: Seq<(usize, (SpecValue, u64))>) -> Map<usize, (SpecValue, u64)>
    decreases pairs.len(),
{
    if pairs.len() == 0 {
        Map::empty()
    } else {
        levels_map(pairs.drop_last()).insert(pairs.last().0, pairs.last().1)
    }
}

impl Verdict {
    pub open spec fn model(self) -> SpecVerdict {
        match self {
            Verdict::Question(p) => SpecVerdict::Question(p),
            Verdict::Choice(label, confidence, probabilities) => SpecVerdict::Choice(
                label@,
                confidence,
                keyed(probabilities@),
            ),
            Verdict::Score(score, confidence, levels) => SpecVerdict::Score(
                score,
                confidence,
                level_models(levels@),
            ),
            Verdict::Unknown(v) => SpecVerdict::Unknown(v.model()),
        }
    }

    /// A score verdict from the probabilities of the levels and the legend of
    /// the levels, each in its own order: the i-th probability goes with the
    /// i-th level of the legend, and the pairs are collected by level as
    /// `BTreeMap<usize, _>::from_iter` collects them.
    pub fn score(score: u64, confidence: u64, probabilities: Vec<u64>, legend: Vec<(u32, Value)>) -> (res: Verdict)
        ensures
            res.model() == SpecVerdict::Score(
                score,
                confidence,
                levels_map(zip_levels(probabilities@, level_legend(legend@))),
            ),
    {
        let ghost probs = probabilities@;
        let ghost leg = level_legend(legend@);
        let n = if probabilities.len() < legend.len() {
            probabilities.len()
        } else {
            legend.len()
        };
        let mut rest = legend;
        let mut levels: BTreeMap<usize, (Value, u64)> = BTreeMap::new();
        let mut i: usize = 0;
        assert(leg.skip(0) =~= leg);
        assert(level_models(levels@) =~= levels_map(zip_levels(probs, leg).take(0)));
        while i < n
            invariant
                0 <= i <= n,
                n <= probs.len(),
                n <= leg.len(),
                probs == probabilities@,
                n == (if probs.len() < leg.len() { probs.len() } else { leg.len() }),
                rest@.len() + i == leg.len(),
                level_legend(rest@) == leg.skip(i as int),
                level_models(levels@) == levels_map(zip_levels(probs, leg).take(i as int)),
            decreases n - i,
        {
            let ghost before = rest@;
            let (key, value) = rest.remove(0);
            assert(rest@ =~= before.drop_first());
            assert(level_legend(rest@) =~= level_legend(before).drop_first());
            assert(leg.skip(i as int).drop_first() =~= leg.skip(i + 1));
            assert(leg[i as int] == leg.skip(i as int)[0]);
            let ghost entry = (key as usize, (value.model(), probs[i as int]));
            let ghost zipped = zip_levels(probs, leg);
            assert(zipped[i as int] == entry);
            assert(zipped.take(i + 1) =~= zipped.take(i as int).push(entry));
            assert(zipped.take(i + 1).drop_last() =~= zipped.take(i as int));
            let ghost levels_before = levels@;
            let probability = probabilities[i];
            put_key(&mut levels, key as usize, (value, probability));
            assert(level_models(levels@) =~= level_models(levels_before).insert(entry.0, entry.1));
            i = i + 1;
        }
        assert(zip_levels(probs, leg).take(n as int) =~= zip_levels(probs, leg));
        Verdict::Score(score, confidence, levels)
    }

    /// The value that the policy receives for this verdict.
    pub fn into_value(self) -> (res: Value)
        ensures
            res.model() == verdict_value(self.model()),
    {
        let ghost sm = self.model();
        match self {
            Verdict::Question(p) => {
                let res = Value::Number(p);
                assert(sm == SpecVerdict::Question(p));
                assert(verdict_value(sm) == SpecValue::Number(p));
                assert(res.model() == SpecValue::Number(p));
                res
            },
            Verdict::Choice(label, confidence, probabilities) => {
                let ghost m = keyed(probabilities@);
                let choices = probability_object(probabilities);
                let pairs = vec![
                    (String::from_str("choices"), choices),
                    (String::from_str("label"), Value::Text(label)),
                    (String::from_str("score"), Value::Number(confidence)),
                ];
                proof {
                    reveal_strlit("choices");
                    reveal_strlit("label");
                    reveal_strlit("score");
                    let e = pair_models(pairs@);
                    assert(key_lt(e[0].0, e[1].0));
                    assert(key_lt(e[1].0, e[2].0));
                    assert(key_lt(e[0].0, e[2].0));
                    assert(sorted_keys(e));
                    lemma_collect_sorted_is_identity(e);
                    assert(e =~= verdict_value(sm)->Object_0);
                }
                Value::object(pairs)
            },
            Verdict::Score(score, confidence, levels) => {
                let scores = level_object(levels);
                let pairs = vec![
                    (String::from_str("confidence"), Value::Number(confidence)),
                    (String::from_str("score"), Value::Number(score)),
                    (String::from_str("scores"), scores),
                ];
                proof {
                    reveal_strlit("confidence");
                    reveal_strlit("score");
                    reveal_strlit("scores");
                    reveal_with_fuel(key_lt, 7);
                    let e = pair_models(pairs@);
                    assert(key_lt(e[0].0, e[1].0));
                    assert(key_lt(e[1].0, e[2].0));
                    assert(key_lt(e[0].0, e[2].0));
                    assert(sorted_keys(e));
                    lemma_collect_sorted_is_identity(e);
                    assert(e =~= verdict_value(sm)->Object_0);
                }
                Value::object(pairs)
            },
            Verdict::Unknown(v) => v,
        }
    }
}

/// The legend as `(level, description)` pairs with the level as a `usize`.
pub open spec fn level_legend(legend: Seq<(u32, Value)>) -> Seq<(usize, SpecValue)> {
    legend.map_values(|p: (u32, Value)| (p.0 as usize, p.1.model()))
}

/// The i-th probability paired with the i-th level of the legend, as far as
/// both go.
pub open spec fn zip_levels(probabilities: Seq<u64>, legend: Seq<(usize, SpecValue)>) -> Seq<(usize, (SpecValue, u64))> {
    let n = if probabilities.len() < legend.len() {
        probabilities.len()
    } else {
        legend.len()
    };
    Seq::new(n, |i: int| (legend[i].0, (legend[i].1, probabilities[i])))
}

/// The entry of each level, in increasing level order.
pub open spec fn level_entries(levels: Map<usize, (SpecValue, u64)>) -> Seq<(Seq<char>, SpecValue)> {
    key_order(levels).map_values(|l: usize| level_entry((l, levels[l])))
}

/// One level's entry in the value of a score verdict.
pub open spec fn level_entry(p: (usize, (SpecValue, u64))) -> (Seq<char>, SpecValue) {
    (
        decimal(p.0 as nat),
        SpecValue::Object(seq![("score"@, SpecValue::Number(p.1.1)), ("value"@, p.1.0)]),
    )
}

/// The value that the policy receives for a verdict.  A probability is a
/// number.  A choice is an object of the probability of each label under
/// `choices`, the chosen label under `label` and the confidence under
/// `score`.  A score is an object of the confidence under `confidence`, the
/// expected score under `score` and the entry of each level under `scores`.
/// An unknown answer is the value as it came.
pub open spec fn verdict_value(v: SpecVerdict) -> SpecValue {
    match v {
        SpecVerdict::Question(p) => SpecValue::Number(p),
        SpecVerdict::Choice(label, confidence, probabilities) => SpecValue::Object(
            seq![
                ("choices"@, object_of(number_pairs(probabilities))),
                ("label"@, SpecValue::Text(label)),
                ("score"@, SpecValue::Number(confidence)),
            ],
        ),
        SpecVerdict::Score(score, confidence, levels) => SpecValue::Object(
            seq![
                ("confidence"@, SpecValue::Number(confidence)),
                ("score"@, SpecValue::Number(score)),
                ("scores"@, object_of(level_entries(levels))),
            ],
        ),
        SpecVerdict::Unknown(v) => v,
    }
}

/// `{label: probability, ...}` from the probabilities of the labels.
fn probability_object(probabilities: Vec<(String, u64)>) -> (res: Value)
    ensures
        res.model() == object_of(number_pairs(keyed(probabilities@))),
{
    let ghost m = keyed(probabilities@);
    let mut rest = probabilities;
    let mut pairs: Vec<(String, Value)> = Vec::new();
    let mut i: usize = 0;
    let total = rest.len();
    assert(m.skip(0) =~= m);
    while rest.len() > 0
        invariant
            i + rest@.len() == m.len(),
            m.len() == total,
            keyed(rest@) =~= m.skip(i as int),
            pair_models(pairs@) =~= number_pairs(m.take(i as int)),
        decreases rest@.len(),
    {
        let ghost before = rest@;
        let (label, p) = rest.remove(0);
        assert(rest@ =~= before.drop_first());
        assert(keyed(rest@) =~= keyed(before).drop_first());
        assert(m.skip(i as int).drop_first() =~= m.skip(i + 1));
        assert(keyed(before)[0] == (label@, p));
        assert(m[i as int] == m.skip(i as int)[0]);
        assert(m.take(i + 1) =~= m.take(i as int).push((label@, p)));
        let ghost pairs_before = pairs@;
        pairs.push((label, Value::Number(p)));
        assert(pair_models(pairs@) =~= pair_models(pairs_before).push((label@, SpecValue::Number(p))));
        i = i + 1;
    }
    assert(m.take(i as int) =~= m);
    Value::object(pairs)
}

/// `{level: {"score": probability, "value": description}, ...}`.
fn level_object(levels: BTreeMap<usize, (Value, u64)>) -> (res: Value)
    ensures
        res.model() == object_of(level_entries(level_models(levels@))),
{
    let ghost all = level_models(levels@);
    let ghost entries = level_entries(all);
    let keys = keys_in_order(&levels);
    proof {
        assert(key_order(all) == keys@) by {
            assert forall|k: usize| #[trigger] all.dom().contains(k) <==> keys@.contains(k) by {
                assert(all.dom().contains(k) <==> levels@.dom().contains(k));
            }
            assert(lists_keys(keys@, all));
            crate::levels::lemma_key_order(keys@, all);
        }
    }
    let mut rest = levels;
    let mut pairs: Vec<(String, Value)> = Vec::new();
    let mut i: usize = 0;
    while i < keys.len()
        invariant
            0 <= i <= keys@.len(),
            crate::levels::increasing(keys@),
            key_order(all) == keys@,
            entries == level_entries(all),
            forall|j: int| i <= j < keys@.len() ==> #[trigger] rest@.contains_key(keys@[j]) && level_models(rest@)[keys@[j]] == all[keys@[j]],
            forall|j: int| 0 <= j < keys@.len() ==> #[trigger] all.dom().contains(keys@[j]),
            pair_models(pairs@) =~= entries.take(i as int),
        decreases keys@.len() - i,
    {
        let level = keys[i];
        let ghost rest_before = rest@;
        assert(rest@.contains_key(keys@[i as int]));
        let (description, probability) = take_key(&mut rest, level);
        assert forall|j: int| i + 1 <= j < keys@.len() implies #[trigger] rest@.contains_key(keys@[j]) && level_models(rest@)[keys@[j]] == all[keys@[j]] by {
            assert(keys@[i as int] < keys@[j]);
            assert(rest_before.contains_key(keys@[j]));
            assert(rest@ == rest_before.remove(level));
            assert(rest@.contains_key(keys@[j]));
            assert(rest@[keys@[j]] == rest_before[keys@[j]]);
        }
        assert(level_models(rest_before)[level] == (description.model(), probability));
        assert(all[level] == (description.model(), probability));
        let key = decimal_text(level as u64);
        let ghost dm = description.model();
        let inner_pairs = vec![
            (String::from_str("score"), Value::Number(probability)),
            (String::from_str("value"), description),
        ];
        proof {
            reveal_strlit("score");
            reveal_strlit("value");
            let e = pair_models(inner_pairs@);
            assert(e =~= seq![("score"@, SpecValue::Number(probability)), ("value"@, dm)]);
            assert(key_lt(e[0].0, e[1].0));
            assert(sorted_keys(e));
            lemma_collect_sorted_is_identity(e);
        }
        let inner = Value::object(inner_pairs);
        let ghost entry = (key@, inner.model());
        assert(entry == level_entry((level, all[level])));
        assert(entries[i as int] == entry);
        assert(entries.take(i + 1) =~= entries.take(i as int).push(entry));
        let ghost pairs_before = pairs@;
        pairs.push((key, inner));
        assert(pair_models(pairs@) =~= pair_models(pairs_before).push(entry));
        i = i + 1;
    }
    assert(entries.take(i as int) =~= entries);
    Value::object(pairs)
}

/// An assessment: for each statement of the query, by name, the statement
/// and the verdict on it; and the artifact assessed.
pub struct Assessment<'a> {
    verdicts: Vec<(String, (&'a Statement, Verdict))>,
    artifact: &'a Artifact,
}

/// The i-th statement paired with the i-th answer, as far as both go.
pub open spec fn zip_verdicts(statements: Seq<(Seq<char>, SpecStatement)>, answers: Seq<SpecVerdict>) -> Seq<(Seq<char>, (SpecStatement, SpecVerdict))> {
    let n = if statements.len() < answers.len() {
        statements.len()
    } else {
        answers.len()
    };
    Seq::new(n, |i: int| (statements[i].0, (statements[i].1, answers[i])))
}

/// Verdicts by name in mathematical form.
pub open spec fn verdict_models<'a>(v: Seq<(String, (&'a Statement, Verdict))>) -> Seq<(Seq<char>, (SpecStatement, SpecVerdict))> {
    v.map_values(|p: (String, (&'a Statement, Verdict))| (p.0@, (p.1.0.model(), p.1.1.model())))
}

/// The value of each verdict, by name.
pub open spec fn verdict_values(v: Seq<(Seq<char>, (SpecStatement, SpecVerdict))>) -> Seq<(Seq<char>, SpecValue)> {
    v.map_values(|p: (Seq<char>, (SpecStatement, SpecVerdict))| (p.0, verdict_value(p.1.1)))
}

impl<'a> Assessment<'a> {
    #[verifier::type_invariant]
    spec fn inv(self) -> bool {
        sorted_keys(verdict_models(self.verdicts@))
    }

    /// The verdicts by name.
    pub closed spec fn model(self) -> Seq<(Seq<char>, (SpecStatement, SpecVerdict))> {
        verdict_models(self.verdicts@)
    }

    /// The artifact assessed.
    pub closed spec fn artifact_spec(self) -> &'a Artifact {
        self.artifact
    }

    /// The verdicts by name, in increasing name order.
    pub fn verdicts(&self) -> (res: &Vec<(String, (&'a Statement, Verdict))>)
        ensures
            verdict_models(res@) == self.model(),
            sorted_keys(self.model()),
    {
        proof {
            use_type_invariant(self);
        }
        &self.verdicts
    }

    /// The artifact assessed.
    pub fn artifact(&self) -> (res: &'a Artifact)
        ensures
            res == self.artifact_spec(),
    {
        self.artifact
    }

    /// The assessment of `artifact` on `query`: the i-th answer is the
    /// verdict on the i-th statement in name order, as far as both go.
    pub fn from_answers(query: &'a Query, answers: Vec<Verdict>, artifact: &'a Artifact) -> (res: Assessment<'a>)
        ensures
            res.model() == zip_verdicts(query.model(), answers@.map_values(|v: Verdict| v.model())),
            res.artifact_spec() == artifact,
            res.model().len() == (if query.model().len() <= answers@.len() {
                query.model().len()
            } else {
                answers@.len()
            }),
            forall|i: int|
                0 <= i < res.model().len() ==> #[trigger] res.model()[i] == (
                    query.model()[i].0,
                    (query.model()[i].1, answers@[i].model()),
                ),
    {
        let statements = query.statements();
        let ghost stm = query.model();
        let ghost am = answers@.map_values(|v: Verdict| v.model());
        let n = if statements.len() < answers.len() {
            statements.len()
        } else {
            answers.len()
        };
        let mut rest = answers;
        let mut verdicts: Vec<(String, (&'a Statement, Verdict))> = Vec::new();
        let mut i: usize = 0;
        assert(am.skip(0) =~= am);
        while i < n
            invariant
                0 <= i <= n,
                n <= statements@.len(),
                n == (if stm.len() < am.len() { stm.len() } else { am.len() }),
                crate::queries::statement_models(statements@) == stm,
                rest@.len() + i == am.len(),
                rest@.map_values(|v: Verdict| v.model()) =~= am.skip(i as int),
                verdict_models(verdicts@) =~= zip_verdicts(stm, am).take(i as int),
            decreases n - i,
        {
            let ghost before = rest@;
            let verdict = rest.remove(0);
            assert(rest@ =~= before.drop_first());
            assert(rest@.map_values(|v: Verdict| v.model()) =~= before.map_values(
                |v: Verdict| v.model(),
            ).drop_first());
            assert(am.skip(i as int).drop_first() =~= am.skip(i + 1));
            assert(before.map_values(|v: Verdict| v.model())[0] == verdict.model());
            assert(am[i as int] == am.skip(i as int)[0]);
            assert(am[i as int] == verdict.model());
            let entry = &statements[i];
            let name = entry.0.clone();
            let statement: &'a Statement = &entry.1;
            assert(stm[i as int] == (name@, statement.model()));
            let ghost vb = verdict_models(verdicts@);
            verdicts.push((name, (statement, verdict)));
            assert(verdict_models(verdicts@) =~= vb.push((name@, (statement.model(), am[i as int]))));
            assert(zip_verdicts(stm, am).take(i + 1) =~= zip_verdicts(stm, am).take(i as int).push(
                (name@, (statement.model(), am[i as int])),
            ));
            i = i + 1;
        }
        assert(zip_verdicts(stm, am).take(n as int) =~= zip_verdicts(stm, am));
        proof {
            let z = zip_verdicts(stm, am);
            assert forall|i: int, j: int| 0 <= i < j < z.len() implies key_lt(
                #[trigger] z[i].0,
                #[trigger] z[j].0,
            ) by {
                assert(z[i].0 == stm[i].0);
                assert(z[j].0 == stm[j].0);
            }
        }
        Assessment { verdicts, artifact }
    }

    /// The value that the policy receives: `{name: verdict value, ...}`.
    pub fn into_value(self) -> (res: Value)
        ensures
            res.model() == object_of(verdict_values(self.model())),
            res.model() == SpecValue::Object(verdict_values(self.model())),
            forall|i: int|
                0 <= i < self.model().len() ==> member(res.model(), #[trigger] self.model()[i].0)
                    == Some(verdict_value(self.model()[i].1.1)),
    {
        proof {
            use_type_invariant(&self);
        }
        let ghost m = self.model();
        proof {
            let vv = verdict_values(m);
            assert forall|i: int, j: int| 0 <= i < j < vv.len() implies key_lt(
                #[trigger] vv[i].0,
                #[trigger] vv[j].0,
            ) by {
                assert(vv[i].0 == m[i].0);
                assert(vv[j].0 == m[j].0);
            }
            lemma_collect_sorted_is_identity(vv);
            assert forall|i: int| 0 <= i < m.len() implies lookup(vv, #[trigger] m[i].0) == Some(
                verdict_value(m[i].1.1),
            ) by {
                lemma_lookup_sorted_at(vv, i);
            }
        }
        let mut rest = self.verdicts;
        let mut pairs: Vec<(String, Value)> = Vec::new();
        let mut i: usize = 0;
        let total = rest.len();
        let ghost values = verdict_values(m);
        assert(m.skip(0) =~= m);
        while rest.len() > 0
            invariant
                i + rest@.len() == m.len(),
                m.len() == total,
                verdict_models(rest@) =~= m.skip(i as int),
                values == verdict_values(m),
                pair_models(pairs@) =~= values.take(i as int),
            decreases rest@.len(),
        {
            let ghost before = rest@;
            let (name, (statement, verdict)) = rest.remove(0);
            assert(rest@ =~= before.drop_first());
            assert(verdict_models(rest@) =~= verdict_models(before).drop_first());
            assert(m.skip(i as int).drop_first() =~= m.skip(i + 1));
            assert(verdict_models(before)[0] == (name@, (statement.model(), verdict.model())));
            assert(m[i as int] == m.skip(i as int)[0]);
            let ghost vm = verdict.model();
            let value = verdict.into_value();
            let ghost entry = (name@, value.model());
            assert(entry == values[i as int]);
            assert(values.take(i + 1) =~= values.take(i as int).push(entry));
            let ghost pairs_before = pairs@;
            pairs.push((name, value));
            assert(pair_models(pairs@) =~= pair_models(pairs_before).push(entry));
            i = i + 1;
        }
        assert(values.take(i as int) =~= values);
        Value::object(pairs)
    }
}

/// The value of a score verdict holds its expected score under `score`, its
/// confidence under `confidence`, and under `scores`, for each level by its
/// decimal numeral, that level's probability under `score` and description
/// under `value`; a number that is no level names nothing there.
pub proof fn law_score_verdict_value(
    score: u64,
    confidence: u64,
    levels: Map<usize, (SpecValue, u64)>,
    level: usize,
)
    requires
        levels.dom().finite(),
    ensures
        member(verdict_value(SpecVerdict::Score(score, confidence, levels)), "score"@) == Some(
            SpecValue::Number(score),
        ),
        member(verdict_value(SpecVerdict::Score(score, confidence, levels)), "confidence"@) == Some(
            SpecValue::Number(confidence),
        ),
        member(verdict_value(SpecVerdict::Score(score, confidence, levels)), "scores"@) matches Some(
            SpecValue::Object(_),
        ),
        member(
            member(verdict_value(SpecVerdict::Score(score, confidence, levels)), "scores"@)->0,
            decimal(level as nat),
        ) == (if levels.dom().contains(level) {
            Some(
                SpecValue::Object(
                    seq![("score"@, SpecValue::Number(levels[level].1)), ("value"@, levels[level].0)],
                ),
            )
        } else {
            None
        }),
{
    reveal_strlit("score");
    reveal_strlit("confidence");
    reveal_strlit("scores");
    reveal_with_fuel(lookup, 4);
    let e = verdict_value(SpecVerdict::Score(score, confidence, levels))->Object_0;
    assert(e[0].0 != "score"@) by {
        assert(e[0].0[0] != "score"@[0]);
    }
    assert(e[1].0 != "confidence"@);
    assert(e[0].0 == "confidence"@);
    assert(e[1].0 == "score"@);
    assert(e[2].0 == "scores"@);
    assert(e.drop_first()[0] == e[1]);
    assert(e[1].0 != "scores"@) by {
        assert(e[1].0.len() != "scores"@.len());
    }
    assert(e[0].0 != "scores"@) by {
        assert(e[0].0[0] != "scores"@[0]);
    }
    assert(e.drop_first().drop_first()[0] == e[2]);
    let ko = key_order(levels);
    crate::levels::lemma_key_order_lists(levels);
    let entries = level_entries(levels);
    let k = decimal(level as nat);
    lemma_collect_last_wins(entries, k);
    assert forall|a: int, b: int| 0 <= a < b < entries.len() implies #[trigger] entries[a].0
        != #[trigger] entries[b].0 by {
        assert(ko[a] < ko[b]);
        crate::text::lemma_decimal_reads_back(ko[a] as nat);
        crate::text::lemma_decimal_reads_back(ko[b] as nat);
    }
    if levels.dom().contains(level) {
        let i = choose|i: int| 0 <= i < ko.len() && ko[i] == level;
        lemma_last_value_distinct(entries, i);
    } else {
        assert forall|a: int| 0 <= a < entries.len() implies #[trigger] entries[a].0 != k by {
            crate::text::lemma_decimal_reads_back(ko[a] as nat);
            crate::text::lemma_decimal_reads_back(level as nat);
            assert(ko.contains(ko[a]));
        }
        lemma_last_value_absent(entries, k);
    }
}

/// The value of a question verdict is its probability.
pub proof fn law_question_verdict_value(p: u64)
    ensures
        verdict_value(SpecVerdict::Question(p)) == SpecValue::Number(p),
{
}

/// The value of a choice verdict holds the chosen label under `label` and
/// the confidence under `score`.
pub proof fn law_choice_verdict_value(
    label: Seq<char>,
    confidence: u64,
    probabilities: Seq<(Seq<char>, u64)>,
)
    ensures
        member(verdict_value(SpecVerdict::Choice(label, confidence, probabilities)), "label"@)
            == Some(SpecValue::Text(label)),
        member(verdict_value(SpecVerdict::Choice(label, confidence, probabilities)), "score"@)
            == Some(SpecValue::Number(confidence)),
        member(verdict_value(SpecVerdict::Choice(label, confidence, probabilities)), "choices"@) matches Some(
            SpecValue::Object(_),
        ),
        forall|k: Seq<char>|
            #[trigger] member(
                member(verdict_value(SpecVerdict::Choice(label, confidence, probabilities)), "choices"@)->0,
                k,
            ) == match last_value(probabilities, k) {
                Some(p) => Some(SpecValue::Number(p)),
                None => None,
            },
{
    reveal_strlit("choices");
    reveal_strlit("label");
    reveal_strlit("score");
    reveal_with_fuel(lookup, 4);
    let e = verdict_value(SpecVerdict::Choice(label, confidence, probabilities))->Object_0;
    assert(e[0].0 != "label"@) by {
        assert(e[0].0[0] != "label"@[0]);
    }
    assert(e[0].0 != "score"@) by {
        assert(e[0].0[0] != "score"@[0]);
    }
    assert(e[1].0 != "score"@) by {
        assert(e[1].0[0] != "score"@[0]);
    }
    assert(e.drop_first()[0] == e[1]);
    assert(e.drop_first().drop_first()[0] == e[2]);
    assert(e[0].0 == "choices"@);
    assert forall|k: Seq<char>| #[trigger] member(
        member(verdict_value(SpecVerdict::Choice(label, confidence, probabilities)), "choices"@)->0,
        k,
    ) == match last_value(probabilities, k) {
        Some(p) => Some(SpecValue::Number(p)),
        None => None,
    } by {
        lemma_collect_last_wins(number_pairs(probabilities), k);
        crate::sorted::lemma_last_value_map(probabilities, |n: u64| SpecValue::Number(n), k);
    }
}

/// The value of an answer of an unknown kind is that answer as it came.
pub proof fn law_unknown_verdict_value(v: SpecValue)
    ensures
        verdict_value(SpecVerdict::Unknown(v)) == v,
{
}

/// The value of an assessment holds, under the name of each verdict,
/// exactly the value of that verdict alone, and nothing under a name that
/// no verdict has.
pub proof fn law_assessment_value(
    verdicts: Seq<(Seq<char>, (SpecStatement, SpecVerdict))>,
    name: Seq<char>,
)
    requires
        sorted_keys(verdicts),
    ensures
        member(object_of(verdict_values(verdicts)), name) == (if exists|i: int|
            0 <= i < verdicts.len() && verdicts[i].0 == name {
            Some(
                verdict_value(
                    verdicts[choose|i: int| 0 <= i < verdicts.len() && verdicts[i].0 == name].1.1,
                ),
            )
        } else {
            None
        }),
{
    let vv = verdict_values(verdicts);
    assert forall|i: int, j: int| 0 <= i < j < vv.len() implies key_lt(#[trigger] vv[i].0, #[trigger] vv[j].0) by {
        assert(vv[i].0 == verdicts[i].0);
        assert(vv[j].0 == verdicts[j].0);
    }
    lemma_collect_sorted_is_identity(vv);
    if exists|i: int| 0 <= i < verdicts.len() && verdicts[i].0 == name {
        let i = choose|i: int| 0 <= i < verdicts.len() && verdicts[i].0 == name;
        lemma_lookup_sorted_at(vv, i);
    } else {
        assert forall|a: int| 0 <= a < vv.len() implies #[trigger] vv[a].0 != name by {
            assert(vv[a].0 == verdicts[a].0);
        }
        crate::sorted::lemma_lookup_absent(vv, name);
    }
}

/// The i-th statement is paired with the i-th answer, for every i below the
/// smaller of their numbers, and no further.
pub proof fn law_zip_verdicts(statements: Seq<(Seq<char>, SpecStatement)>, answers: Seq<SpecVerdict>)
    ensures
        zip_verdicts(statements, answers).len() == (if statements.len() <= answers.len() {
            statements.len()
        } else {
            answers.len()
        }),
        forall|i: int|
            0 <= i < zip_verdicts(statements, answers).len() ==> #[trigger] zip_verdicts(
                statements,
                answers,
            )[i] == (statements[i].0, (statements[i].1, answers[i])),
{
}

} // verus!
