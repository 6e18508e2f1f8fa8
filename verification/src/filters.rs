//! The filter engine: two lists of compiled patterns and the rule by which
//! they classify a line.

use crate::config::{Config, ConfigError};
use crate::pattern::{compiles, is_match_of, pattern_text};
use regex::Regex;
use vstd::prelude::*;

verus! {

/// The verdict on one line.
#[derive(Debug, Clone, Copy, PartialEq, Eq, Structural)]
pub enum FilterDecision {
    /// The line matched an exclude pattern and is dropped.
    Excluded,
    /// The line matched an include pattern and is kept.
    Included,
    /// There are no include patterns, and the line is kept.
    Passed,
    /// There are include patterns and the line matched none of them.
    DroppedNoIncludeMatch,
}

/// Whether at least one expression of `set` matches `line`.
pub open spec fn any_match(set: Seq<Regex>, line: Seq<char>) -> bool {
    exists|i: int| 0 <= i < set.len() && is_match_of(#[trigger] set[i], line)
}

/// The rule of classification, on the three facts it depends on: an exclude
/// match decides first, then an empty include list, then an include match.
pub open spec fn verdict(exclude_hit: bool, include_empty: bool, include_hit: bool)
    -> FilterDecision {
    if exclude_hit {
        FilterDecision::Excluded
    } else if include_empty {
        FilterDecision::Passed
    } else if include_hit {
        FilterDecision::Included
    } else {
        FilterDecision::DroppedNoIncludeMatch
    }
}

/// The verdict of two pattern sets on a line.
pub open spec fn classification(includes: Seq<Regex>, exclude: Seq<Regex>, line: Seq<char>)
    -> FilterDecision {
    verdict(any_match(exclude, line), includes.len() == 0, any_match(includes, line))
}

/// Whether `set` holds, position by position, an expression compiled from
/// the pattern at that position of `patterns`.
pub open spec fn compiled_from(set: Seq<Regex>, patterns: Seq<String>) -> bool {
    &&& set.len() == patterns.len()
    &&& forall|i: int| 0 <= i < set.len() ==> pattern_text(#[trigger] set[i]) == patterns[i]@
}

/// Whether every pattern of the list compiles.
pub open spec fn all_compile(patterns: Seq<String>) -> bool {
    forall|i: int| 0 <= i < patterns.len() ==> compiles((#[trigger] patterns[i])@)
}

/// Whether the pattern at position `i` does not compile and every pattern
/// before it does.
pub open spec fn is_first_rejected(patterns: Seq<String>, i: int) -> bool {
    &&& 0 <= i < patterns.len()
    &&& !compiles(patterns[i]@)
    &&& forall|j: int| 0 <= j < i ==> compiles((#[trigger] patterns[j])@)
}

/// One pattern together with the outcome of compiling it.
#[derive(Debug)]
pub struct Attempt {
    pub pattern: String,
    pub outcome: Result<Regex, regex::Error>,
}

/// Whether every attempt succeeded.
pub open spec fn all_compiled(attempts: Seq<Attempt>) -> bool {
    forall|i: int| 0 <= i < attempts.len() ==> (#[trigger] attempts[i]).outcome is Ok
}

/// Whether the attempt at position `i` failed and every attempt before it
/// succeeded.
pub open spec fn is_first_failure(attempts: Seq<Attempt>, i: int) -> bool {
    &&& 0 <= i < attempts.len()
    &&& attempts[i].outcome is Err
    &&& forall|j: int| 0 <= j < i ==> (#[trigger] attempts[j]).outcome is Ok
}

/// The compiled expressions of attempts that all succeeded, in order.
pub open spec fn compiled(attempts: Seq<Attempt>) -> Seq<Regex> {
    Seq::new(attempts.len(), |i: int| attempts[i].outcome->Ok_0)
}

/// The error for a pattern of the list `kind` that was turned down.
pub open spec fn failure(kind: &'static str, attempt: Attempt) -> ConfigError {
    ConfigError::InvalidPattern {
        kind,
        pattern: attempt.pattern,
        source: attempt.outcome->Err_0,
    }
}

impl FilterDecision {
    /// Whether a line with this verdict is printed.
    pub open spec fn is_accepted(self) -> bool {
        self is Included || self is Passed
    }

    /// The verdict for a line, given whether an exclude pattern matched it,
    /// whether the include list is empty, and whether an include pattern
    /// matched it.
    pub fn decide(exclude_hit: bool, include_empty: bool, include_hit: bool) -> (d: FilterDecision)
        ensures
            d == verdict(exclude_hit, include_empty, include_hit),
    {
        if exclude_hit {
            FilterDecision::Excluded
        } else if include_empty {
            FilterDecision::Passed
        } else if include_hit {
            FilterDecision::Included
        } else {
            FilterDecision::DroppedNoIncludeMatch
        }
    }

    /// Whether a line with this verdict is printed.
    pub fn accepted(self) -> (b: bool)
        ensures
            b == self.is_accepted(),
    {
        match self {
            FilterDecision::Included | FilterDecision::Passed => true,
            FilterDecision::Excluded | FilterDecision::DroppedNoIncludeMatch => false,
        }
    }
}

/// The compiled include and exclude patterns of a run.
#[derive(Debug)]
pub struct Filters {
    includes: Vec<Regex>,
    exclude: Vec<Regex>,
}

/// Whether at least one expression of `set` matches `line`.
fn matches_any(set: &Vec<Regex>, line: &str) -> (hit: bool)
    ensures
        hit == any_match(set@, line@),
{
    let mut i: usize = 0;
    while i < set.len()
        invariant
            i <= set.len(),
            forall|k: int| 0 <= k < i ==> !is_match_of(#[trigger] set@[k], line@),
        decreases set.len() - i,
    {
        if set[i].is_match(line) {
            return true;
        }
        i += 1;
    }
    false
}

impl Filters {
    /// The compiled include patterns, in the order of the configuration.
    pub closed spec fn include_set(&self) -> Seq<Regex> {
        self.includes@
    }

    /// The compiled exclude patterns, in the order of the configuration.
    pub closed spec fn exclude_set(&self) -> Seq<Regex> {
        self.exclude@
    }

    /// The verdict of these filters on a line.
    pub open spec fn decision(&self, line: Seq<char>) -> FilterDecision {
        classification(self.include_set(), self.exclude_set(), line)
    }

    /// Tries to compile each pattern of a list.
    fn attempt_each(patterns: &Vec<String>) -> (attempts: Vec<Attempt>)
        ensures
            attempts.len() == patterns.len(),
            forall|i: int|
                0 <= i < attempts.len() ==> {
                    &&& (#[trigger] attempts[i]).pattern@ == patterns[i]@
                    &&& attempts[i].outcome is Ok <==> compiles(patterns[i]@)
                    &&& attempts[i].outcome matches Ok(re) ==> pattern_text(re) == patterns[i]@
                },
    {
        let mut attempts: Vec<Attempt> = Vec::new();
        let mut i: usize = 0;
        while i < patterns.len()
            invariant
                i <= patterns.len(),
                attempts.len() == i,
                forall|k: int|
                    0 <= k < i ==> {
                        &&& (#[trigger] attempts[k]).pattern@ == patterns[k]@
                        &&& attempts[k].outcome is Ok <==> compiles(patterns[k]@)
                        &&& attempts[k].outcome matches Ok(re) ==> pattern_text(re) == patterns[k]@
                    },
            decreases patterns.len() - i,
        {
            let outcome = Regex::new(patterns[i].as_str());
            attempts.push(Attempt { pattern: patterns[i].clone(), outcome });
            i += 1;
        }
        attempts
    }

    /// The compiled expressions of one list, if every pattern compiled;
    /// otherwise the error for the first pattern that did not, which names the
    /// list (`kind`), the pattern and the cause.
    pub fn collect(kind: &'static str, attempts: Vec<Attempt>) -> (r: Result<
        Vec<Regex>,
        ConfigError,
    >)
        ensures
            match r {
                Ok(set) => all_compiled(attempts@) && set@ == compiled(attempts@),
                Err(e) => exists|i: int|
                    is_first_failure(attempts@, i) && e == failure(kind, #[trigger] attempts[i]),
            },
    {
        let ghost all = attempts@;
        let mut set: Vec<Regex> = Vec::new();
        for attempt in it: attempts
            invariant
                it.seq() == all,
                set.len() == it.index(),
                forall|k: int| 0 <= k < it.index() ==> (#[trigger] all[k]).outcome == Ok::<
                    Regex,
                    regex::Error,
                >(set@[k]),
        {
            let ghost at = it.index();
            match attempt.outcome {
                Ok(re) => {
                    set.push(re);
                },
                Err(cause) => {
                    proof {
                        assert(is_first_failure(all, at));
                    }
                    return Err(
                        ConfigError::InvalidPattern { kind, pattern: attempt.pattern, source: cause },
                    );
                },
            }
        }
        assert(set@ =~= compiled(all));
        Ok(set)
    }

    /// The filters that the attempts at both lists give: the compiled
    /// expressions if every pattern compiled. Otherwise the first include
    /// pattern that was turned down decides, or, if there is none, the first
    /// such exclude pattern; the error says `"include"` or `"exclude"`.
    pub fn from_attempts(includes: Vec<Attempt>, exclude: Vec<Attempt>) -> (r: Result<
        Filters,
        ConfigError,
    >)
        ensures
            match r {
                Ok(filters) => {
                    &&& all_compiled(includes@)
                    &&& all_compiled(exclude@)
                    &&& filters.include_set() == compiled(includes@)
                    &&& filters.exclude_set() == compiled(exclude@)
                },
                Err(e) => {
                    ||| exists|i: int|
                        is_first_failure(includes@, i) && e == failure(
                            "include",
                            #[trigger] includes[i],
                        )
                    ||| all_compiled(includes@) && exists|i: int|
                        is_first_failure(exclude@, i) && e == failure(
                            "exclude",
                            #[trigger] exclude[i],
                        )
                },
            },
    {
        let include_set = match Filters::collect("include", includes) {
            Ok(set) => set,
            Err(e) => {
                return Err(e);
            },
        };
        let exclude_set = match Filters::collect("exclude", exclude) {
            Ok(set) => set,
            Err(e) => {
                return Err(e);
            },
        };
        Ok(Filters { includes: include_set, exclude: exclude_set })
    }

    /// Compiles the include and the exclude patterns of a configuration.
    ///
    /// The construction succeeds exactly when every pattern of both lists
    /// compiles, and each compiled expression then stands for the pattern at
    /// its position in the configuration. Otherwise the error is that of the
    /// first include pattern that does not compile, or, if all of those do,
    /// of the first such exclude pattern: it names the list, `"include"` or
    /// `"exclude"`, and holds the pattern.
    pub fn from_config(cfg: &Config) -> (r: Result<Filters, ConfigError>)
        ensures
            r is Ok <==> all_compile(cfg.includes@) && all_compile(cfg.exclude@),
            match r {
                Ok(filters) => {
                    &&& compiled_from(filters.include_set(), cfg.includes@)
                    &&& compiled_from(filters.exclude_set(), cfg.exclude@)
                },
                Err(e) => e matches ConfigError::InvalidPattern { kind, pattern, .. } && {
                    ||| exists|i: int|
                        is_first_rejected(cfg.includes@, i) && kind@ == "include"@ && pattern@ == (
                        #[trigger] cfg.includes[i])@
                    ||| all_compile(cfg.includes@) && exists|i: int|
                        is_first_rejected(cfg.exclude@, i) && kind@ == "exclude"@ && pattern@ == (
                        #[trigger] cfg.exclude[i])@
                },
            },
    {
        let includes = Filters::attempt_each(&cfg.includes);
        let exclude = Filters::attempt_each(&cfg.exclude);
        let ghost tried_includes = includes@;
        let ghost tried_exclude = exclude@;
        let r = Filters::from_attempts(includes, exclude);
        proof {
            lemma_attempts_follow_patterns(tried_includes, cfg.includes@);
            lemma_attempts_follow_patterns(tried_exclude, cfg.exclude@);
        }
        r
    }

    /// Classifies a line: exclude patterns first, then the include patterns.
    pub fn classify(&self, line: &str) -> (d: FilterDecision)
        ensures
            d == self.decision(line@),
    {
        if matches_any(&self.exclude, line) {
            return FilterDecision::decide(true, self.includes.is_empty(), false);
        }
        if self.includes.is_empty() {
            return FilterDecision::decide(false, true, false);
        }
        FilterDecision::decide(false, false, matches_any(&self.includes, line))
    }

    /// Whether a line is printed: its verdict is `Included` or `Passed`.
    pub fn matches(&self, line: &str) -> (b: bool)
        ensures
            b == self.decision(line@).is_accepted(),
    {
        self.classify(line).accepted()
    }
}

/// Attempts that succeed exactly on the patterns that compile fail first
/// where the first pattern is rejected.
proof fn lemma_attempts_follow_patterns(attempts: Seq<Attempt>, patterns: Seq<String>)
    requires
        attempts.len() == patterns.len(),
        forall|i: int|
            0 <= i < attempts.len() ==> ((#[trigger] attempts[i]).outcome is Ok <==> compiles(
                patterns[i]@,
            )),
    ensures
        all_compiled(attempts) <==> all_compile(patterns),
        forall|i: int| is_first_failure(attempts, i) <==> is_first_rejected(patterns, i),
{
    if all_compiled(attempts) {
        assert forall|i: int| 0 <= i < patterns.len() implies compiles(
            (#[trigger] patterns[i])@,
        ) by {
            assert(attempts[i].outcome is Ok);
        }
    }
    if all_compile(patterns) {
        assert forall|i: int| 0 <= i < attempts.len() implies (#[trigger] attempts[i]).outcome is Ok by {
            assert(compiles(patterns[i]@));
        }
    }
    assert forall|i: int| is_first_failure(attempts, i) <==> is_first_rejected(patterns, i) by {
        if is_first_failure(attempts, i) {
            assert forall|j: int| 0 <= j < i implies compiles((#[trigger] patterns[j])@) by {
                assert(attempts[j].outcome is Ok);
            }
        }
        if is_first_rejected(patterns, i) {
            assert forall|j: int| 0 <= j < i implies (#[trigger] attempts[j]).outcome is Ok by {
                assert(compiles(patterns[j]@));
            }
        }
    }
}

/// Exclusion has priority: a line that an exclude pattern matches is
/// `Excluded`, whatever the include patterns are and whether they match.
pub proof fn lemma_exclude_priority(includes: Seq<Regex>, exclude: Seq<Regex>, line: Seq<char>)
    requires
        any_match(exclude, line),
    ensures
        classification(includes, exclude, line) == FilterDecision::Excluded,
{
}

/// Without include patterns, a line that no exclude pattern matches is
/// `Passed`.
pub proof fn lemma_empty_include_passes(includes: Seq<Regex>, exclude: Seq<Regex>, line: Seq<char>)
    requires
        includes.len() == 0,
        !any_match(exclude, line),
    ensures
        classification(includes, exclude, line) == FilterDecision::Passed,
{
}

/// With include patterns, a line that no exclude pattern matches is
/// `Included` if and only if an include pattern matches it, and
/// `DroppedNoIncludeMatch` otherwise.
pub proof fn lemma_include_decides(includes: Seq<Regex>, exclude: Seq<Regex>, line: Seq<char>)
    requires
        includes.len() > 0,
        !any_match(exclude, line),
    ensures
        classification(includes, exclude, line) == FilterDecision::Included <==> any_match(
            includes,
            line,
        ),
        classification(includes, exclude, line) == FilterDecision::DroppedNoIncludeMatch
            <==> !any_match(includes, line),
{
}

/// A line is printed exactly when its verdict is `Included` or `Passed`:
/// what `matches` answers is what `classify` decides.
pub proof fn lemma_matches_agrees_with_classify(filters: Filters, line: Seq<char>)
    ensures
        filters.decision(line).is_accepted() <==> (filters.decision(line)
            == FilterDecision::Included || filters.decision(line) == FilterDecision::Passed),
        filters.decision(line).is_accepted() <==> !any_match(filters.exclude_set(), line) && (
        filters.include_set().len() == 0 || any_match(filters.include_set(), line)),
{
}

} // verus!
