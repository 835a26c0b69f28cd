//! What can be assessed: a path on disk, a pull request named as
//! `provider:owner/repo#number`, or any other identifier.
use vstd::prelude::*;
use crate::sorted::lemma_collect_sorted_is_identity;
use crate::text::{
    lemma_decimal_reads_back, lemma_parse_decimal, lemma_split_no_separator,
    lemma_split_separator_then_piece, all_digits, count_separators, decimal, decimal_text, digit_char, digits_value, has_char,
    is_digit, lemma_split_len, lemma_three_separators, parse_u32, parse_u32_spec, split_spec,
    split_text, texts, without_plus,
};
use crate::value::{object_of, pair_models, SpecValue, Value};

verus! {

/// A path that exists on disk.
pub struct Path {
    pub path: String,
    pub is_file: bool,
}

/// A pull request of a repository at a code hosting provider.
pub struct PullRequest {
    pub provider: String,
    pub owner: String,
    pub repo: String,
    pub pr_number: u32,
}

/// Any other identifier.
pub struct Other {
    pub identifier: String,
}

/// A target of an assessment.
pub enum Target {
    Path(Path),
    PullRequest(PullRequest),
    Other(Other),
}

/// Why a text names no target.
pub enum TargetError {
    InvalidTarget(String),
}

/// What the file system holds at the path that a target text names, as
/// `Path::exists` and `fs::metadata(..).is_file()` report it.
#[derive(PartialEq, Eq, Structural, Clone, Copy, Debug)]
pub enum PathProbe {
    /// Nothing exists there.
    Missing,
    /// A file exists there.
    File,
    /// Something exists there that is not a file (or its metadata cannot be
    /// read).
    NotFile,
}

/// The mathematical form of a [`Target`].
pub enum SpecTarget {
    Path(Seq<char>, bool),
    PullRequest(Seq<char>, Seq<char>, Seq<char>, u32),
    Other(Seq<char>),
}

impl PullRequest {
    pub open spec fn model(self) -> SpecTarget {
        SpecTarget::PullRequest(self.provider@, self.owner@, self.repo@, self.pr_number)
    }
}

impl Target {
    pub open spec fn model(self) -> SpecTarget {
        match self {
            Target::Path(p) => SpecTarget::Path(p.path@, p.is_file),
            Target::PullRequest(pr) => pr.model(),
            Target::Other(o) => SpecTarget::Other(o.identifier@),
        }
    }
}

impl TargetError {
    /// The text of the error.
    pub open spec fn text(self) -> Seq<char> {
        match self {
            TargetError::InvalidTarget(s) => s@,
        }
    }

    /// The text that the error displays.
    pub fn message(&self) -> (res: String)
        ensures
            res@ == "Invalid target: "@ + self.text(),
    {
        match self {
            TargetError::InvalidTarget(s) => String::from_str("Invalid target: ").concat(s.as_str()),
        }
    }
}

/// The characters at which a pull request target is split.
pub open spec fn target_separators() -> Seq<char> {
    seq![':', '/', '#']
}

/// Whether a target text names a pull request: it holds `:`, `#` and `/`.
pub open spec fn names_pull_request(t: Seq<char>) -> bool {
    t.contains(':') && t.contains('#') && t.contains('/')
}

/// What `parse_target` gives for a target text, given what the file system
/// holds at that path.
pub open spec fn parse_target_spec(t: Seq<char>, probe: PathProbe) -> Result<SpecTarget, Seq<char>> {
    if t.len() == 0 {
        Err("Target cannot be empty"@)
    } else if names_pull_request(t) {
        let parts = split_spec(t, target_separators());
        if parts.len() < 4 {
            Err("Invalid pull request target: "@ + t)
        } else {
            match parse_u32_spec(parts[3]) {
                Some(n) => Ok(SpecTarget::PullRequest(parts[0], parts[1], parts[2], n)),
                None => Err("Invalid pull request number: "@ + parts[2]),
            }
        }
    } else {
        match probe {
            PathProbe::Missing => Ok(SpecTarget::Other(t)),
            PathProbe::File => Ok(SpecTarget::Path(t, true)),
            PathProbe::NotFile => Ok(SpecTarget::Path(t, false)),
        }
    }
}

/// The identifier of a target.
pub open spec fn identifier_spec(t: SpecTarget) -> Seq<char> {
    match t {
        SpecTarget::Path(p, _) => p,
        SpecTarget::PullRequest(provider, owner, repo, n) => provider + ":"@ + owner + "/"@ + repo
            + "#"@ + decimal(n as nat),
        SpecTarget::Other(i) => i,
    }
}

/// A text that names a pull request splits into at least four parts.
pub proof fn law_pull_request_text_has_four_parts(t: Seq<char>)
    requires
        names_pull_request(t),
    ensures
        split_spec(t, target_separators()).len() >= 4,
{
    let seps = target_separators();
    assert(seps[0] == ':');
    assert(seps[1] == '/');
    assert(seps[2] == '#');
    lemma_three_separators(t, seps, ':', '/', '#');
    lemma_split_len(t, seps);
}

/// Whether no character of `s` separates the parts of a pull request target.
pub open spec fn free_of_separators(s: Seq<char>) -> bool {
    forall|i: int| 0 <= i < s.len() ==> !target_separators().contains(#[trigger] s[i])
}

/// Reading back the identifier of a pull request gives that pull request,
/// whatever the file system holds, when its provider, owner and repository
/// contain none of `:`, `/` and `#`.
pub proof fn law_pull_request_identifier_round_trip(
    provider: Seq<char>,
    owner: Seq<char>,
    repo: Seq<char>,
    n: u32,
    probe: PathProbe,
)
    requires
        free_of_separators(provider),
        free_of_separators(owner),
        free_of_separators(repo),
    ensures
        parse_target_spec(
            identifier_spec(SpecTarget::PullRequest(provider, owner, repo, n)),
            probe,
        ) == Ok::<SpecTarget, Seq<char>>(SpecTarget::PullRequest(provider, owner, repo, n)),
{
    reveal_strlit(":");
    reveal_strlit("/");
    reveal_strlit("#");
    let seps = target_separators();
    let d = decimal(n as nat);
    lemma_decimal_reads_back(n as nat);
    lemma_parse_decimal(n);
    assert(seps.contains(':')) by { assert(seps[0] == ':'); }
    assert(seps.contains('/')) by { assert(seps[1] == '/'); }
    assert(seps.contains('#')) by { assert(seps[2] == '#'); }
    assert forall|i: int| 0 <= i < d.len() implies !seps.contains(#[trigger] d[i]) by {
        assert(is_digit(d[i]));
        if seps.contains(d[i]) {
            let k = choose|k: int| 0 <= k < seps.len() && seps[k] == d[i];
        }
    }
    let t = identifier_spec(SpecTarget::PullRequest(provider, owner, repo, n));
    let a = provider + seq![':'] + owner;
    let b = a + seq!['/'] + repo;
    assert(t =~= b + seq!['#'] + d);
    lemma_split_no_separator(provider, seps);
    lemma_split_separator_then_piece(provider, ':', owner, seps);
    lemma_split_separator_then_piece(a, '/', repo, seps);
    lemma_split_separator_then_piece(b, '#', d, seps);
    let parts = split_spec(t, seps);
    assert(parts =~= seq![provider, owner, repo, d]);
    assert(t[provider.len() as int] == ':');
    assert(t[a.len() as int] == '/');
    assert(t[b.len() as int] == '#');
    assert(names_pull_request(t));
}

/// Reads a target from its text, as the command line gives it.  `probe`
/// tells what the file system holds at the path the text names; it decides
/// between a path and another identifier when the text names no pull
/// request.
pub fn parse_target(target: &str, probe: PathProbe) -> (res: Result<Target, TargetError>)
    ensures
        match (res, parse_target_spec(target@, probe)) {
            (Ok(t), Ok(m)) => t.model() == m,
            (Err(e), Err(m)) => e.text() == m,
            _ => false,
        },
        target@.len() > 0 && !(target@.contains(':') && target@.contains('#') && target@.contains('/'))
            ==> match probe {
            PathProbe::File => res matches Ok(Target::Path(p)) && p.path@ == target@ && p.is_file,
            PathProbe::NotFile => res matches Ok(Target::Path(p)) && p.path@ == target@ && !p.is_file,
            PathProbe::Missing => res matches Ok(Target::Other(o)) && o.identifier@ == target@,
        },
        res matches Err(e) ==> e.text() == "Target cannot be empty"@ || e.text().len()
            >= "Invalid pull request number: "@.len() && e.text().take(
            "Invalid pull request number: "@.len() as int,
        ) == "Invalid pull request number: "@,
{
    if target.is_empty() {
        return Err(TargetError::InvalidTarget(String::from_str("Target cannot be empty")));
    }
    if has_char(target, ':') && has_char(target, '#') && has_char(target, '/') {
        let seps = [':', '/', '#'];
        assert(seps@ =~= target_separators());
        let parts = split_text(target, &seps);
        proof {
            law_pull_request_text_has_four_parts(target@);
        }
        if parts.len() < 4 {
            let msg = String::from_str("Invalid pull request target: ").concat(target);
            return Err(TargetError::InvalidTarget(msg));
        }
        assert(parts[3]@ == split_spec(target@, target_separators())[3]);
        match parse_u32(parts[3].as_str()) {
            Some(n) => {
                let pr = PullRequest {
                    provider: parts[0].clone(),
                    owner: parts[1].clone(),
                    repo: parts[2].clone(),
                    pr_number: n,
                };
                assert(parts[0]@ == split_spec(target@, target_separators())[0]);
                assert(parts[1]@ == split_spec(target@, target_separators())[1]);
                assert(parts[2]@ == split_spec(target@, target_separators())[2]);
                Ok(Target::PullRequest(pr))
            },
            None => {
                assert(parts[2]@ == split_spec(target@, target_separators())[2]);
                let msg = String::from_str("Invalid pull request number: ").concat(
                    parts[2].as_str(),
                );
                proof {
                    reveal_strlit("Invalid pull request number: ");
                    assert(msg@.take("Invalid pull request number: "@.len() as int)
                        =~= "Invalid pull request number: "@);
                }
                Err(TargetError::InvalidTarget(msg))
            },
        }
    } else {
        let text = String::from_str(target);
        match probe {
            PathProbe::Missing => Ok(Target::Other(Other { identifier: text })),
            PathProbe::File => Ok(Target::Path(Path { path: text, is_file: true })),
            PathProbe::NotFile => Ok(Target::Path(Path { path: text, is_file: false })),
        }
    }
}

impl Target {
    /// The identifier of the target: the path, the pull request as
    /// `provider:owner/repo#number`, or the identifier as given.
    pub fn get_identifier(&self) -> (res: String)
        ensures
            res@ == identifier_spec(self.model()),
            match self {
                Target::Path(p) => res@ == p.path@,
                Target::Other(o) => res@ == o.identifier@,
                Target::PullRequest(pr) => res@ == pr.provider@ + ":"@ + pr.owner@ + "/"@ + pr.repo@
                    + "#"@ + decimal(pr.pr_number as nat),
            },
    {
        match self {
            Target::Path(t) => t.path.clone(),
            Target::PullRequest(t) => {
                let s = t.provider.clone();
                let s = s.concat(":");
                let s = s.concat(t.owner.as_str());
                let s = s.concat("/");
                let s = s.concat(t.repo.as_str());
                let s = s.concat("#");
                let number = decimal_text(t.pr_number as u64);
                s.concat(number.as_str())
            },
            Target::Other(t) => t.identifier.clone(),
        }
    }

    /// The pull request, if the target is one.
    pub fn as_pull_request(&self) -> (res: Option<&PullRequest>)
        ensures
            match self {
                Target::PullRequest(pr) => res == Some(pr),
                _ => res is None,
            },
    {
        match self {
            Target::PullRequest(pr) => Some(pr),
            _ => None,
        }
    }
}

/// The input data that a policy is given for a target:
/// `{"target": identifier}`.
pub fn policy_input_data(target: &Target) -> (res: Value)
    ensures
        res.model() == SpecValue::Object(
            seq![("target"@, SpecValue::Text(identifier_spec(target.model())))],
        ),
        match target {
            Target::Path(p) => res.model() == SpecValue::Object(
                seq![("target"@, SpecValue::Text(p.path@))],
            ),
            Target::Other(o) => res.model() == SpecValue::Object(
                seq![("target"@, SpecValue::Text(o.identifier@))],
            ),
            Target::PullRequest(_) => true,
        },
{
    let id = target.get_identifier();
    let ghost idm = id@;
    let pairs = vec![(String::from_str("target"), Value::Text(id))];
    assert(pair_models(pairs@) =~= seq![("target"@, SpecValue::Text(idm))]);
    proof {
        lemma_collect_sorted_is_identity(seq![("target"@, SpecValue::Text(idm))]);
    }
    Value::object(pairs)
}

/// A non-empty text that names no pull request is read by what the file
/// system holds there alone: a file is a path that is a file, anything else
/// that exists a path that is not one, and nothing an identifier; the text
/// is kept whole, whatever characters it holds.
pub proof fn law_non_pull_request_target(t: Seq<char>, probe: PathProbe)
    requires
        t.len() > 0,
        !(t.contains(':') && t.contains('#') && t.contains('/')),
    ensures
        probe == PathProbe::File ==> parse_target_spec(t, probe) == Ok::<SpecTarget, Seq<char>>(
            SpecTarget::Path(t, true),
        ),
        probe == PathProbe::NotFile ==> parse_target_spec(t, probe) == Ok::<SpecTarget, Seq<char>>(
            SpecTarget::Path(t, false),
        ),
        probe == PathProbe::Missing ==> parse_target_spec(t, probe) == Ok::<SpecTarget, Seq<char>>(
            SpecTarget::Other(t),
        ),
{
}

/// The identifier of a path is its whole path, and that of another
/// identifier the identifier itself; so reading a non-empty text that names
/// no pull request and taking the identifier gives the text back.
pub proof fn law_identifier_reads_back(t: Seq<char>, probe: PathProbe, is_file: bool)
    requires
        t.len() > 0,
        !(t.contains(':') && t.contains('#') && t.contains('/')),
    ensures
        identifier_spec(SpecTarget::Path(t, is_file)) == t,
        identifier_spec(SpecTarget::Other(t)) == t,
        parse_target_spec(t, probe) matches Ok(x) && identifier_spec(x) == t,
{
}

} // verus!
