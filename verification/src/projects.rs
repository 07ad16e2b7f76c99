//! Project groups and the rules their names obey.
//!
//! A project name is judged after trimming surrounding whitespace: it may
//! not be blank, may not be one of the reserved names `__none__` and
//! `__new__`, and may not repeat an earlier name up to letter case.

use vstd::prelude::*;
use crate::text::{contains_string, string_views, concat3, owned, str_eq, str_is_empty, to_lowercase, trim, trim_spec, lowercase};

verus! {

/// Error code carried by every project-name error.
pub const PROJECT_NAME_ERROR: &'static str = "PROJ004";

/// A named group of services.
#[derive(Debug)]
pub struct Project {
    /// Display name of the project.
    pub name: String,
    /// Identifiers of the services in the project.
    pub service_ids: Vec<String>,
}

/// All projects known to the desktop application.
#[derive(Debug)]
pub struct ProjectConfig {
    /// The projects, in display order.
    pub projects: Vec<Project>,
}

/// An error with a categorical code and a human-readable message.
#[derive(Debug)]
pub struct CommandError {
    /// Stable error code, such as `PROJ004`.
    pub code: &'static str,
    /// Human-readable description.
    pub message: String,
}

/// The trimmed names of `ps`, in order.
pub open spec fn trimmed_names(ps: Seq<Project>) -> Seq<Seq<char>> {
    Seq::new(ps.len(), |i: int| trim_spec(ps[i].name@))
}

/// A trimmed name with no characters.
pub open spec fn is_blank_name(t: Seq<char>) -> bool {
    t.len() == 0
}

/// One of the names reserved by the user interface.
pub open spec fn is_reserved_name(t: Seq<char>) -> bool {
    t == "__none__"@ || t == "__new__"@
}

/// Lowercased forms of the non-blank names among the first `n`, in order.
pub open spec fn seen_lowers(ts: Seq<Seq<char>>, n: int) -> Seq<Seq<char>>
    decreases n,
{
    if n <= 0 {
        Seq::empty()
    } else if is_blank_name(ts[n - 1]) {
        seen_lowers(ts, n - 1)
    } else {
        seen_lowers(ts, n - 1).push(lowercase(ts[n - 1]))
    }
}

/// Name `i` equals, up to case, some earlier non-blank name.
pub open spec fn repeats_earlier(ts: Seq<Seq<char>>, i: int) -> bool {
    exists|j: int| 0 <= j < i && !is_blank_name(ts[j]) && lowercase(ts[j]) == lowercase(ts[i])
}

/// Name `i` is acceptable.
pub open spec fn name_ok(ts: Seq<Seq<char>>, i: int) -> bool {
    !is_blank_name(ts[i]) && !is_reserved_name(ts[i]) && !repeats_earlier(ts, i)
}

/// Every name is acceptable.
pub open spec fn all_names_ok(ts: Seq<Seq<char>>) -> bool {
    forall|i: int| 0 <= i < ts.len() ==> name_ok(ts, i)
}

/// `i` is the first unacceptable name.
pub open spec fn first_bad_name(ts: Seq<Seq<char>>, i: int) -> bool {
    &&& 0 <= i < ts.len()
    &&& !name_ok(ts, i)
    &&& forall|k: int| 0 <= k < i ==> name_ok(ts, k)
}

/// The message reported for the unacceptable name `i`.
pub open spec fn name_error_message(ts: Seq<Seq<char>>, i: int) -> Seq<char> {
    if is_blank_name(ts[i]) {
        "Blank project name is not allowed"@
    } else if is_reserved_name(ts[i]) {
        "Reserved project name '"@ + ts[i] + "' is not allowed"@
    } else {
        "Duplicate project name '"@ + ts[i] + "' is not allowed"@
    }
}

/// Number of blank names among the first `n`.
pub open spec fn count_blank(ts: Seq<Seq<char>>, n: int) -> nat
    decreases n,
{
    if n <= 0 { 0 } else { count_blank(ts, n - 1) + if is_blank_name(ts[n - 1]) { 1nat } else { 0nat } }
}

/// Number of non-blank reserved names among the first `n`.
pub open spec fn count_reserved(ts: Seq<Seq<char>>, n: int) -> nat
    decreases n,
{
    if n <= 0 {
        0
    } else {
        count_reserved(ts, n - 1) + if !is_blank_name(ts[n - 1]) && is_reserved_name(ts[n - 1]) {
            1nat
        } else {
            0nat
        }
    }
}

/// Number of non-blank names among the first `n` that repeat an earlier one.
pub open spec fn count_duplicate(ts: Seq<Seq<char>>, n: int) -> nat
    decreases n,
{
    if n <= 0 {
        0
    } else {
        count_duplicate(ts, n - 1) + if !is_blank_name(ts[n - 1]) && repeats_earlier(ts, n - 1) {
            1nat
        } else {
            0nat
        }
    }
}

/// Check the project names: the first unacceptable name, in order, is
/// reported, as blank, reserved or duplicate, in that order of precedence.
pub fn validate_project_names(projects: &[Project]) -> (r: Result<(), CommandError>)
    ensures
        r is Ok <==> all_names_ok(trimmed_names(projects@)),
        r matches Err(e) ==> {
            &&& e.code@ == PROJECT_NAME_ERROR@
            &&& exists|i: int| first_bad_name(trimmed_names(projects@), i)
                && e.message@ == name_error_message(trimmed_names(projects@), i)
        },
{
    let ghost ts = trimmed_names(projects@);
    let mut seen: Vec<String> = Vec::new();
    let mut i: usize = 0;
    while i < projects.len()
        invariant
            ts == trimmed_names(projects@),
            i <= projects@.len(),
            forall|k: int| 0 <= k < i ==> name_ok(ts, k),
            string_views(seen@) == seen_lowers(ts, i as int),
        decreases projects@.len() - i,
    {
        let name = trim(projects[i].name.as_str());
        assert(name@ == ts[i as int]);
        if str_is_empty(name) {
            assert(first_bad_name(ts, i as int));
            return Err(CommandError {
                code: PROJECT_NAME_ERROR,
                message: owned("Blank project name is not allowed"),
            });
        }
        if str_eq(name, "__none__") || str_eq(name, "__new__") {
            assert(first_bad_name(ts, i as int));
            return Err(CommandError {
                code: PROJECT_NAME_ERROR,
                message: concat3("Reserved project name '", name, "' is not allowed"),
            });
        }
        let lower = to_lowercase(name);
        proof {
            lemma_seen_lowers_contains(ts, i as int, lower@);
        }
        if contains_string(&seen, &lower) {
            proof {
                let j = choose|j: int| 0 <= j < i && !is_blank_name(ts[j]) && lowercase(ts[j]) == lower@;
                assert(repeats_earlier(ts, i as int));
                assert(first_bad_name(ts, i as int));
            }
            return Err(CommandError {
                code: PROJECT_NAME_ERROR,
                message: concat3("Duplicate project name '", name, "' is not allowed"),
            });
        }
        proof {
            if repeats_earlier(ts, i as int) {
                let j = choose|j: int| 0 <= j < i && !is_blank_name(ts[j]) && lowercase(ts[j]) == lowercase(ts[i as int]);
                assert(false);
            }
        }
        seen.push(lower);
        assert(string_views(seen@) =~= seen_lowers(ts, i as int + 1));
        i = i + 1;
    }
    Ok(())
}

/// Counts of each kind of unacceptable project name.
#[derive(Debug, Clone, Copy, PartialEq, Eq)]
pub struct ProjectValidationSummary {
    /// Names that are blank after trimming.
    pub blank_names: usize,
    /// Non-blank names that are reserved.
    pub reserved_names: usize,
    /// Non-blank names that repeat an earlier one up to case.
    pub duplicate_names: usize,
}

impl ProjectValidationSummary {
    /// Total number of problems.
    pub open spec fn spec_score(self) -> int {
        self.blank_names + self.reserved_names + self.duplicate_names
    }

    /// `self` has fewer problems than `existing` and no more of any kind.
    pub open spec fn spec_is_corrective_from(self, existing: Self) -> bool {
        &&& self.reserved_names <= existing.reserved_names
        &&& self.blank_names <= existing.blank_names
        &&& self.duplicate_names <= existing.duplicate_names
        &&& self.spec_score() < existing.spec_score()
    }

    /// Total number of problems.
    pub fn score(self) -> (s: usize)
        requires
            self.spec_score() <= usize::MAX,
        ensures
            s == self.spec_score(),
    {
        self.blank_names + self.reserved_names + self.duplicate_names
    }

    /// Whether moving from `existing` to `self` repairs problems without
    /// adding any of a kind.
    pub fn is_corrective_from(self, existing: Self) -> (b: bool)
        ensures
            b == self.spec_is_corrective_from(existing),
    {
        let reserved_ok = self.reserved_names <= existing.reserved_names;
        let blank_ok = self.blank_names <= existing.blank_names;
        let duplicate_ok = self.duplicate_names <= existing.duplicate_names;
        reserved_ok && blank_ok && duplicate_ok && self.wide_score() < existing.wide_score()
    }

    /// Total number of problems, computed without any risk of overflow.
    fn wide_score(self) -> (s: u128)
        ensures
            s == self.spec_score(),
    {
        self.blank_names as u128 + self.reserved_names as u128 + self.duplicate_names as u128
    }
}

/// The summary that describes the names `ts`.
pub open spec fn summary_of(ts: Seq<Seq<char>>) -> ProjectValidationSummary {
    ProjectValidationSummary {
        blank_names: count_blank(ts, ts.len() as int) as usize,
        reserved_names: count_reserved(ts, ts.len() as int) as usize,
        duplicate_names: count_duplicate(ts, ts.len() as int) as usize,
    }
}

/// Count the blank, reserved and duplicate names among `projects`.
pub fn summarize_project_names(projects: &[Project]) -> (s: ProjectValidationSummary)
    ensures
        s == summary_of(trimmed_names(projects@)),
        s.blank_names + s.duplicate_names <= projects@.len(),
        s.reserved_names <= projects@.len(),
{
    let ghost ts = trimmed_names(projects@);
    let mut seen: Vec<String> = Vec::new();
    let mut blank_names: usize = 0;
    let mut reserved_names: usize = 0;
    let mut duplicate_names: usize = 0;
    let mut i: usize = 0;
    while i < projects.len()
        invariant
            ts == trimmed_names(projects@),
            i <= projects@.len(),
            blank_names == count_blank(ts, i as int),
            reserved_names == count_reserved(ts, i as int),
            duplicate_names == count_duplicate(ts, i as int),
            blank_names + duplicate_names <= i,
            reserved_names <= i,
            string_views(seen@) == seen_lowers(ts, i as int),
        decreases projects@.len() - i,
    {
        let name = trim(projects[i].name.as_str());
        assert(name@ == ts[i as int]);
        if str_is_empty(name) {
            blank_names = blank_names + 1;
            i = i + 1;
            continue;
        }
        if str_eq(name, "__none__") || str_eq(name, "__new__") {
            reserved_names = reserved_names + 1;
        }
        let lower = to_lowercase(name);
        proof {
            lemma_seen_lowers_contains(ts, i as int, lower@);
            if repeats_earlier(ts, i as int) {
                let j = choose|j: int| 0 <= j < i && !is_blank_name(ts[j]) && lowercase(ts[j]) == lowercase(ts[i as int]);
            }
        }
        if contains_string(&seen, &lower) {
            duplicate_names = duplicate_names + 1;
        }
        seen.push(lower);
        assert(string_views(seen@) =~= seen_lowers(ts, i as int + 1));
        i = i + 1;
    }
    ProjectValidationSummary { blank_names, reserved_names, duplicate_names }
}

/// Decide whether a save of `config` is accepted, given the configuration
/// `existing` that it replaces: a valid configuration is always accepted;
/// an invalid one only when it is corrective from the existing one, and
/// otherwise the validation error is returned.
pub fn check_project_save(config: &ProjectConfig, existing: &ProjectConfig) -> (r: Result<(), CommandError>)
    ensures
        r is Ok <==> (all_names_ok(trimmed_names(config.projects@))
            || summary_of(trimmed_names(config.projects@)).spec_is_corrective_from(
                summary_of(trimmed_names(existing.projects@)))),
        r matches Err(e) ==> {
            &&& e.code@ == PROJECT_NAME_ERROR@
            &&& exists|i: int| first_bad_name(trimmed_names(config.projects@), i)
                && e.message@ == name_error_message(trimmed_names(config.projects@), i)
        },
{
    match validate_project_names(config.projects.as_slice()) {
        Ok(()) => Ok(()),
        Err(err) => {
            let existing_summary = summarize_project_names(existing.projects.as_slice());
            let new_summary = summarize_project_names(config.projects.as_slice());
            if new_summary.is_corrective_from(existing_summary) {
                Ok(())
            } else {
                Err(err)
            }
        },
    }
}

/// The names pass validation exactly when the summary finds no blank,
/// reserved or duplicate name.
pub proof fn lemma_valid_iff_no_problems(ts: Seq<Seq<char>>)
    ensures
        all_names_ok(ts) <==> (count_blank(ts, ts.len() as int) == 0
            && count_reserved(ts, ts.len() as int) == 0
            && count_duplicate(ts, ts.len() as int) == 0),
{
    lemma_prefix_ok_iff_no_problems(ts, ts.len() as int);
}

proof fn lemma_prefix_ok_iff_no_problems(ts: Seq<Seq<char>>, n: int)
    requires
        0 <= n <= ts.len(),
    ensures
        (forall|k: int| 0 <= k < n ==> name_ok(ts, k)) <==> (count_blank(ts, n) == 0
            && count_reserved(ts, n) == 0 && count_duplicate(ts, n) == 0),
    decreases n,
{
    if n > 0 {
        lemma_prefix_ok_iff_no_problems(ts, n - 1);
        if forall|k: int| 0 <= k < n ==> name_ok(ts, k) {
            assert(name_ok(ts, n - 1));
        }
        if count_blank(ts, n) == 0 && count_reserved(ts, n) == 0 && count_duplicate(ts, n) == 0 {
            assert forall|k: int| 0 <= k < n implies name_ok(ts, k) by {
                if k < n - 1 {
                } else {
                }
            }
        }
    }
}

proof fn lemma_counts_bounded(ts: Seq<Seq<char>>, n: int)
    requires
        0 <= n <= ts.len(),
    ensures
        count_blank(ts, n) <= n,
        count_reserved(ts, n) <= n,
        count_duplicate(ts, n) <= n,
    decreases n,
{
    if n > 0 {
        lemma_counts_bounded(ts, n - 1);
    }
}

/// A save whose names are invalid is accepted only as a repair: it has no
/// more blank, reserved or duplicate names than the configuration it
/// replaces, and fewer problems in all. In particular a save that brings a
/// blank name into a configuration without one is refused.
pub proof fn lemma_accepted_invalid_save_adds_no_problem(new_names: Seq<Seq<char>>, old_names: Seq<Seq<char>>)
    requires
        new_names.len() <= usize::MAX,
        old_names.len() <= usize::MAX,
    ensures
        (!all_names_ok(new_names) && (all_names_ok(new_names)
            || summary_of(new_names).spec_is_corrective_from(summary_of(old_names)))) ==> {
            &&& count_blank(new_names, new_names.len() as int) <= count_blank(old_names, old_names.len() as int)
            &&& count_reserved(new_names, new_names.len() as int) <= count_reserved(old_names, old_names.len() as int)
            &&& count_duplicate(new_names, new_names.len() as int) <= count_duplicate(old_names, old_names.len() as int)
            &&& count_blank(new_names, new_names.len() as int) + count_reserved(new_names, new_names.len() as int)
                + count_duplicate(new_names, new_names.len() as int) < count_blank(old_names, old_names.len() as int)
                + count_reserved(old_names, old_names.len() as int) + count_duplicate(old_names, old_names.len() as int)
        },
        (count_blank(new_names, new_names.len() as int) > 0 && count_blank(old_names, old_names.len() as int) == 0)
            ==> !(all_names_ok(new_names) || summary_of(new_names).spec_is_corrective_from(summary_of(old_names))),
{
    lemma_counts_bounded(new_names, new_names.len() as int);
    lemma_counts_bounded(old_names, old_names.len() as int);
    lemma_valid_iff_no_problems(new_names);
}

/// No configuration is corrective from itself.
pub proof fn lemma_corrective_irreflexive(a: ProjectValidationSummary)
    ensures
        !a.spec_is_corrective_from(a),
{
}

/// A repair of a repair is a repair of the first configuration.
pub proof fn lemma_corrective_transitive(
    a: ProjectValidationSummary,
    b: ProjectValidationSummary,
    c: ProjectValidationSummary,
)
    requires
        a.spec_is_corrective_from(b),
        b.spec_is_corrective_from(c),
    ensures
        a.spec_is_corrective_from(c),
{
}

/// `seen_lowers` holds exactly the lowercased non-blank earlier names.
pub proof fn lemma_seen_lowers_contains(ts: Seq<Seq<char>>, n: int, x: Seq<char>)
    requires
        0 <= n <= ts.len(),
    ensures
        seen_lowers(ts, n).contains(x) <==> exists|j: int|
            0 <= j < n && !is_blank_name(ts[j]) && lowercase(ts[j]) == x,
    decreases n,
{
    if n > 0 {
        lemma_seen_lowers_contains(ts, n - 1, x);
        let prev = seen_lowers(ts, n - 1);
        if !is_blank_name(ts[n - 1]) {
            let cur = prev.push(lowercase(ts[n - 1]));
            if cur.contains(x) {
                let k = choose|k: int| 0 <= k < cur.len() && cur[k] == x;
                if k < prev.len() {
                    assert(prev[k] == x);
                }
            }
            if exists|j: int| 0 <= j < n && !is_blank_name(ts[j]) && lowercase(ts[j]) == x {
                let j = choose|j: int| 0 <= j < n && !is_blank_name(ts[j]) && lowercase(ts[j]) == x;
                if j < n - 1 {
                    let k = choose|k: int| 0 <= k < prev.len() && prev[k] == x;
                    assert(cur[k] == x);
                } else {
                    assert(cur[prev.len() as int] == x);
                }
            }
        }
    }
}

} // verus!
