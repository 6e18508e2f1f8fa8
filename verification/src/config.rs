//! The configuration of a run: pattern lists and log sources, and the checks
//! that a configuration passes before any reader starts.

use crate::text::{blank, is_blank};
use vstd::prelude::*;

verus! {

/// An I/O error of the operating system, carried through unread.
#[verifier::external_type_specification]
#[verifier::external_body]
pub struct ExIoError(std::io::Error);

/// What a run is configured with.
#[derive(Debug, Clone)]
pub struct Config {
    /// Whether to follow files as they grow.
    pub follow: bool,
    /// A line must match at least one of these, unless the list is empty.
    pub includes: Vec<String>,
    /// A line must match none of these.
    pub exclude: Vec<String>,
    /// The log sources to read.
    pub sources: Vec<SourceConfig>,
}

/// One log source.
#[derive(Debug, Clone)]
pub struct SourceConfig {
    /// The name printed in front of each line of this source.
    pub name: String,
    pub kind: SourceKind,
}

/// Where a source's lines come from.
#[derive(Debug, Clone)]
pub enum SourceKind {
    /// A file that is read to its end.
    File { path: String },
    /// A command whose standard output is read.
    Command { command: String, args: Vec<String> },
}

/// What the file system answered when asked about a source's path.
#[derive(Debug)]
pub enum PathProbe {
    /// The path names a regular file.
    RegularFile,
    /// The path exists and is something else.
    NotRegularFile,
    /// Nothing exists at the path.
    NotFound,
    /// The path could not be examined.
    Failed(std::io::Error),
}

/// Why a configuration is turned down.
#[derive(Debug)]
pub enum ConfigError {
    /// The configuration as a whole is unusable; the text says why.
    Invalid(String),
    /// Nothing exists at the path of a file source.
    SourceFileNotFound { name: String, path: String },
    /// The path of a file source names something that is not a regular file.
    SourceNotAFile { name: String, path: String },
    /// The command of a command source is empty or all white space.
    SourceCommandEmpty { name: String },
    /// The path of a file source could not be examined.
    SourceIo { name: String, path: String, source: std::io::Error },
    /// A pattern of the list `kind`, `"include"` or `"exclude"`, does not
    /// compile.
    InvalidPattern { kind: &'static str, pattern: String, source: regex::Error },
}

/// Whether the source at position `i` is the first of its name.
pub open spec fn is_first(sources: Seq<SourceConfig>, i: int) -> bool {
    forall|j: int| 0 <= j < i ==> (#[trigger] sources[j]).name@ != sources[i].name@
}

/// Whether a source of `sources` is called `name`.
pub open spec fn name_occurs(sources: Seq<SourceConfig>, name: Seq<char>) -> bool {
    exists|j: int| 0 <= j < sources.len() && (#[trigger] sources[j]).name@ == name
}

/// Whether a source of `sources` has a name that is empty or all white space.
pub open spec fn has_blank_name(sources: Seq<SourceConfig>) -> bool {
    exists|i: int| 0 <= i < sources.len() && is_blank((#[trigger] sources[i]).name@)
}

/// Whether no two sources share a name.
pub open spec fn names_unique(sources: Seq<SourceConfig>) -> bool {
    forall|i: int, j: int|
        0 <= i < j < sources.len() ==> (#[trigger] sources[i]).name@ != (#[trigger] sources[j]).name@
}

/// The sources that are the first of their name, in their order.
pub open spec fn dedup_by_name(sources: Seq<SourceConfig>) -> Seq<SourceConfig>
    decreases sources.len(),
{
    if sources.len() == 0 {
        sources
    } else {
        let head = dedup_by_name(sources.drop_last());
        if is_first(sources, sources.len() - 1) {
            head.push(sources.last())
        } else {
            head
        }
    }
}

/// Whether the source at position `i` is looked at: every source is, unless
/// only the first of each name counts.
pub open spec fn is_examined(sources: Seq<SourceConfig>, i: int, firsts_only: bool) -> bool {
    !firsts_only || is_first(sources, i)
}

/// Whether position `i` holds the first examined source that its probe turns
/// down.
pub open spec fn is_first_fault(
    sources: Seq<SourceConfig>,
    probes: Seq<PathProbe>,
    firsts_only: bool,
    i: int,
) -> bool {
    &&& 0 <= i < sources.len()
    &&& is_examined(sources, i, firsts_only)
    &&& sources[i].check(probes[i]) is Err
    &&& forall|j: int|
        0 <= j < i && is_examined(sources, j, firsts_only) ==> (#[trigger] sources[j]).check(
            probes[j],
        ) is Ok
}

/// Whether every examined source passes its probe.
pub open spec fn all_pass(sources: Seq<SourceConfig>, probes: Seq<PathProbe>, firsts_only: bool)
    -> bool {
    forall|i: int|
        0 <= i < sources.len() && is_examined(sources, i, firsts_only) ==> (
        #[trigger] sources[i]).check(probes[i]) is Ok
}

impl SourceConfig {
    /// The rule for one source. A file source stands or falls with what the
    /// file system answered for its path; a command source is turned down if
    /// its command is empty or all white space, and `probe` plays no part.
    pub open spec fn check(self, probe: PathProbe) -> Result<(), ConfigError> {
        match self.kind {
            SourceKind::File { path } => match probe {
                PathProbe::RegularFile => Ok(()),
                PathProbe::NotRegularFile => Err(
                    ConfigError::SourceNotAFile { name: self.name, path },
                ),
                PathProbe::NotFound => Err(
                    ConfigError::SourceFileNotFound { name: self.name, path },
                ),
                PathProbe::Failed(cause) => Err(
                    ConfigError::SourceIo { name: self.name, path, source: cause },
                ),
            },
            SourceKind::Command { command, args } => if is_blank(command@) {
                Err(ConfigError::SourceCommandEmpty { name: self.name })
            } else {
                Ok(())
            },
        }
    }

    /// Whether the source passes, given what the file system answered for its
    /// path.
    pub fn passes(&self, probe: &PathProbe) -> (ok: bool)
        ensures
            ok == self.check(*probe) is Ok,
    {
        match &self.kind {
            SourceKind::File { .. } => match probe {
                PathProbe::RegularFile => true,
                _ => false,
            },
            SourceKind::Command { command, .. } => !blank(command.as_str()),
        }
    }

    /// Checks the source against what the file system answered for its path,
    /// and names what is wrong with it.
    pub fn check_source(&self, probe: PathProbe) -> (r: Result<(), ConfigError>)
        ensures
            r == self.check(probe),
    {
        match &self.kind {
            SourceKind::File { path } => match probe {
                PathProbe::RegularFile => Ok(()),
                PathProbe::NotRegularFile => Err(
                    ConfigError::SourceNotAFile { name: self.name.clone(), path: path.clone() },
                ),
                PathProbe::NotFound => Err(
                    ConfigError::SourceFileNotFound { name: self.name.clone(), path: path.clone() },
                ),
                PathProbe::Failed(cause) => Err(
                    ConfigError::SourceIo {
                        name: self.name.clone(),
                        path: path.clone(),
                        source: cause,
                    },
                ),
            },
            SourceKind::Command { command, .. } => if blank(command.as_str()) {
                Err(ConfigError::SourceCommandEmpty { name: self.name.clone() })
            } else {
                Ok(())
            },
        }
    }
}

/// Whether one of the first `upto` sources is called `name`.
fn name_seen(sources: &Vec<SourceConfig>, upto: usize, name: &String) -> (seen: bool)
    requires
        upto <= sources.len(),
    ensures
        seen == name_occurs(sources@.take(upto as int), name@),
{
    let mut j: usize = 0;
    while j < upto
        invariant
            j <= upto <= sources.len(),
            forall|k: int| 0 <= k < j ==> (#[trigger] sources@[k]).name@ != name@,
        decreases upto - j,
    {
        if sources[j].name == *name {
            assert(sources@.take(upto as int)[j as int].name@ == name@);
            return true;
        }
        j += 1;
    }
    false
}

/// The position of the first examined source that its probe turns down.
fn first_fault_index(sources: &Vec<SourceConfig>, probes: &Vec<PathProbe>, firsts_only: bool) -> (r:
    Option<usize>)
    requires
        probes.len() == sources.len(),
    ensures
        match r {
            Some(i) => is_first_fault(sources@, probes@, firsts_only, i as int),
            None => all_pass(sources@, probes@, firsts_only),
        },
{
    let mut i: usize = 0;
    while i < sources.len()
        invariant
            i <= sources.len(),
            probes.len() == sources.len(),
            forall|j: int|
                0 <= j < i && is_examined(sources@, j, firsts_only) ==> (#[trigger] sources@[j]).check(
                    probes@[j],
                ) is Ok,
        decreases sources.len() - i,
    {
        let examined = !firsts_only || !name_seen(sources, i, &sources[i].name);
        proof {
            lemma_first_is_unseen(sources@, i as int);
        }
        if examined && !sources[i].passes(&probes[i]) {
            return Some(i);
        }
        i += 1;
    }
    None
}

impl Config {
    /// Whether the configuration can be run as far as its own text shows: it
    /// has a source, every source has a name that is not blank and that no
    /// other source has, and no command is blank.
    pub open spec fn is_sound(&self) -> bool {
        &&& self.sources.len() > 0
        &&& !has_blank_name(self.sources@)
        &&& names_unique(self.sources@)
        &&& forall|i: int|
            0 <= i < self.sources.len() ==> ((#[trigger] self.sources[i]).kind matches SourceKind::Command {
                command,
                ..
            } ==> !is_blank(command@))
    }

    /// Checks the configuration and drops every source whose name an earlier
    /// source already has.
    ///
    /// `probes[i]` is what the file system answered for the path of the
    /// source at position `i`; for a command source it plays no part. The
    /// checks come in this order, and the first that fails decides:
    /// a configuration without sources is invalid; so is one with a source
    /// whose name is empty or all white space; then the sources are
    /// deduplicated by name, and the first remaining source that its own rule
    /// turns down gives the error. Only the list of sources ever changes, and
    /// only once the first two checks have passed.
    pub fn validate(&mut self, probes: Vec<PathProbe>) -> (r: Result<(), ConfigError>)
        requires
            probes.len() == old(self).sources.len(),
        ensures
            final(self).follow == old(self).follow,
            final(self).includes == old(self).includes,
            final(self).exclude == old(self).exclude,
            old(self).sources.len() == 0 ==> {
                &&& r matches Err(ConfigError::Invalid(message))
                &&& message@ == "At least one log source must be specified."@
                &&& final(self).sources == old(self).sources
            },
            old(self).sources.len() > 0 && has_blank_name(old(self).sources@) ==> {
                &&& r matches Err(ConfigError::Invalid(message))
                &&& message@ == "Source name cannot be empty."@
                &&& final(self).sources == old(self).sources
            },
            old(self).sources.len() > 0 && !has_blank_name(old(self).sources@) ==> {
                &&& final(self).sources@ == dedup_by_name(old(self).sources@)
                &&& match r {
                    Ok(()) => all_pass(old(self).sources@, probes@, true),
                    Err(e) => exists|i: int|
                        is_first_fault(old(self).sources@, probes@, true, i) && Err::<(), ConfigError>(e)
                            == (#[trigger] old(self).sources[i]).check(probes[i]),
                }
            },
            r is Ok ==> final(self).is_sound(),
    {
        if self.sources.is_empty() {
            return Err(ConfigError::Invalid("At least one log source must be specified.".to_string()));
        }
        let mut n: usize = 0;
        while n < self.sources.len()
            invariant
                n <= self.sources.len(),
                *self == *old(self),
                forall|k: int| 0 <= k < n ==> !is_blank((#[trigger] self.sources@[k]).name@),
            decreases self.sources.len() - n,
        {
            if blank(self.sources[n].name.as_str()) {
                return Err(ConfigError::Invalid("Source name cannot be empty.".to_string()));
            }
            n += 1;
        }
        let ghost answers = probes@;
        let mut probes = probes;
        let fault = match first_fault_index(&self.sources, &probes, true) {
            None => Ok(()),
            Some(i) => self.sources[i].check_source(probes.swap_remove(i)),
        };
        proof {
            lemma_dedup_sound(self.sources@, answers);
        }
        self.dedup_sources_by_name();
        fault
    }

    /// Drops every source whose name an earlier source already has. The first
    /// source of each name stays, and the order of those that stay is kept.
    pub fn dedup_sources_by_name(&mut self)
        ensures
            final(self).sources@ == dedup_by_name(old(self).sources@),
            final(self).follow == old(self).follow,
            final(self).includes == old(self).includes,
            final(self).exclude == old(self).exclude,
    {
        let ghost orig = self.sources@;
        let ghost mut k: int = 0;
        let mut i: usize = 0;
        while i < self.sources.len()
            invariant
                0 <= i <= k <= orig.len(),
                self.sources@.len() - i == orig.len() - k,
                self.sources@.take(i as int) == dedup_by_name(orig.take(k)),
                self.sources@.skip(i as int) == orig.skip(k),
                self.follow == old(self).follow,
                self.includes == old(self).includes,
                self.exclude == old(self).exclude,
            decreases self.sources.len() - i,
        {
            let ghost cur = self.sources@;
            assert(cur[i as int] == cur.skip(i as int)[0]);
            assert(cur[i as int] == orig[k]);
            let dup = name_seen(&self.sources, i, &self.sources[i].name);
            proof {
                let prefix = orig.take(k + 1);
                assert(prefix.drop_last() =~= orig.take(k));
                lemma_dedup_names(orig.take(k), orig[k].name@);
                lemma_first_is_unseen(prefix, k);
                assert(prefix.take(k) =~= orig.take(k));
            }
            proof {
                let tail = cur.skip(i + 1);
                assert(tail.len() == orig.skip(k + 1).len());
                assert forall|m: int| 0 <= m < tail.len() implies #[trigger] tail[m] == orig.skip(
                    k + 1,
                )[m] by {
                    assert(cur.skip(i as int)[m + 1] == orig.skip(k)[m + 1]);
                }
                assert(tail =~= orig.skip(k + 1));
            }
            if dup {
                self.sources.remove(i);
                assert(self.sources@.take(i as int) =~= cur.take(i as int));
                assert(self.sources@.skip(i as int) =~= cur.skip(i + 1));
            } else {
                i += 1;
                assert(cur.take(i as int) =~= cur.take(i - 1).push(cur[i - 1]));
            }
            proof {
                k = k + 1;
            }
        }
        assert(self.sources@.take(i as int) =~= self.sources@);
        assert(orig.take(k) =~= orig);
    }

    /// Checks each source against what the file system answered for its path,
    /// in order, and names what is wrong with the first that fails.
    /// `probes[i]` belongs to the source at position `i`.
    pub fn validate_sources(&self, probes: Vec<PathProbe>) -> (r: Result<(), ConfigError>)
        requires
            probes.len() == self.sources.len(),
        ensures
            match r {
                Ok(()) => all_pass(self.sources@, probes@, false),
                Err(e) => exists|i: int|
                    is_first_fault(self.sources@, probes@, false, i) && Err::<(), ConfigError>(e) == (
                    #[trigger] self.sources[i]).check(probes[i]),
            },
    {
        let mut probes = probes;
        match first_fault_index(&self.sources, &probes, false) {
            None => Ok(()),
            Some(i) => self.sources[i].check_source(probes.swap_remove(i)),
        }
    }
}

/// A source is the first of its name exactly when no source before it has
/// that name.
proof fn lemma_first_is_unseen(sources: Seq<SourceConfig>, i: int)
    requires
        0 <= i < sources.len(),
    ensures
        is_first(sources, i) <==> !name_occurs(sources.take(i), sources[i].name@),
{
    if !is_first(sources, i) {
        let j = choose|j: int| 0 <= j < i && (#[trigger] sources[j]).name@ == sources[i].name@;
        assert(sources.take(i)[j].name@ == sources[i].name@);
    }
    if name_occurs(sources.take(i), sources[i].name@) {
        let j = choose|j: int|
            0 <= j < sources.take(i).len() && (#[trigger] sources.take(i)[j]).name@
                == sources[i].name@;
        assert(sources[j].name@ == sources[i].name@);
    }
}

/// Deduplication loses no name and invents none.
pub proof fn lemma_dedup_names(sources: Seq<SourceConfig>, name: Seq<char>)
    ensures
        name_occurs(dedup_by_name(sources), name) <==> name_occurs(sources, name),
    decreases sources.len(),
{
    if sources.len() > 0 {
        let init = sources.drop_last();
        let last = sources.len() - 1;
        lemma_dedup_names(init, name);
        lemma_dedup_names(init, sources.last().name@);
        lemma_first_is_unseen(sources, last);
        assert(sources.take(last) =~= init);
        let kept = dedup_by_name(sources);
        if name_occurs(kept, name) {
            let j = choose|j: int| 0 <= j < kept.len() && (#[trigger] kept[j]).name@ == name;
            if j < dedup_by_name(init).len() {
                assert(dedup_by_name(init)[j].name@ == name);
                let m = choose|m: int| 0 <= m < init.len() && (#[trigger] init[m]).name@ == name;
                assert(sources[m].name@ == name);
            } else {
                assert(sources[last].name@ == name);
            }
        }
        if name_occurs(sources, name) {
            let m = choose|m: int| 0 <= m < sources.len() && (#[trigger] sources[m]).name@ == name;
            if m < last {
                assert(init[m].name@ == name);
                let j = choose|j: int|
                    0 <= j < dedup_by_name(init).len() && (#[trigger] dedup_by_name(init)[j]).name@
                        == name;
                assert(kept[j].name@ == name);
            } else if is_first(sources, last) {
                assert(kept[kept.len() - 1].name@ == name);
            } else {
                let j = choose|j: int|
                    0 <= j < dedup_by_name(init).len() && (#[trigger] dedup_by_name(init)[j]).name@
                        == name;
                assert(kept[j].name@ == name);
            }
        }
    }
}

/// Duplicate names collapse to the first occurrence. The positions returned
/// say where each remaining source stood before: they rise strictly, each is
/// the first of its name, and every first of its name is among them.
pub proof fn lemma_dedup_keeps_firsts(sources: Seq<SourceConfig>) -> (positions: Seq<int>)
    ensures
        positions.len() == dedup_by_name(sources).len(),
        forall|i: int|
            0 <= i < positions.len() ==> {
                &&& 0 <= (#[trigger] positions[i]) < sources.len()
                &&& is_first(sources, positions[i])
                &&& dedup_by_name(sources)[i] == sources[positions[i]]
            },
        forall|i: int, j: int|
            0 <= i < j < positions.len() ==> (#[trigger] positions[i]) < (#[trigger] positions[j]),
        forall|k: int|
            0 <= k < sources.len() && is_first(sources, k) ==> exists|i: int|
                0 <= i < positions.len() && #[trigger] positions[i] == k,
    decreases sources.len(),
{
    if sources.len() == 0 {
        Seq::empty()
    } else {
        let init = sources.drop_last();
        let last = sources.len() - 1;
        let before = lemma_dedup_keeps_firsts(init);
        assert forall|k: int| 0 <= k < last implies is_first(init, k) == is_first(sources, k) by {
            if is_first(init, k) {
                assert forall|j: int| 0 <= j < k implies (#[trigger] sources[j]).name@
                    != sources[k].name@ by {
                    assert(init[j].name@ != init[k].name@);
                }
            }
            if is_first(sources, k) {
                assert forall|j: int| 0 <= j < k implies (#[trigger] init[j]).name@
                    != init[k].name@ by {
                    assert(sources[j].name@ != sources[k].name@);
                }
            }
        }
        let positions = if is_first(sources, last) {
            before.push(last)
        } else {
            before
        };
        assert forall|k: int| 0 <= k < sources.len() && is_first(sources, k) implies exists|i: int|
            0 <= i < positions.len() && #[trigger] positions[i] == k by {
            if k < last {
                let i = choose|i: int| 0 <= i < before.len() && #[trigger] before[i] == k;
                assert(positions[i] == k);
            } else {
                assert(positions[positions.len() - 1] == k);
            }
        }
        positions
    }
}

/// After deduplication no two sources share a name.
pub proof fn lemma_dedup_names_unique(sources: Seq<SourceConfig>)
    ensures
        names_unique(dedup_by_name(sources)),
{
    let positions = lemma_dedup_keeps_firsts(sources);
    let kept = dedup_by_name(sources);
    assert forall|i: int, j: int| 0 <= i < j < kept.len() implies (#[trigger] kept[i]).name@ != (
    #[trigger] kept[j]).name@ by {
        assert(positions[i] < positions[j]);
        assert(is_first(sources, positions[j]));
        assert(sources[positions[i]].name@ != sources[positions[j]].name@);
    }
}

/// A list without duplicate names is left as it is.
pub proof fn lemma_dedup_of_unique(sources: Seq<SourceConfig>)
    requires
        names_unique(sources),
    ensures
        dedup_by_name(sources) == sources,
    decreases sources.len(),
{
    if sources.len() > 0 {
        let init = sources.drop_last();
        assert(names_unique(init)) by {
            assert forall|i: int, j: int| 0 <= i < j < init.len() implies (#[trigger] init[i]).name@
                != (#[trigger] init[j]).name@ by {
                assert(sources[i].name@ != sources[j].name@);
            }
        }
        lemma_dedup_of_unique(init);
        assert(init.push(sources.last()) =~= sources);
    }
}

/// What deduplication leaves of a non-empty list without blank names is
/// sound, if every first of its name passes its probe.
proof fn lemma_dedup_sound(sources: Seq<SourceConfig>, probes: Seq<PathProbe>)
    requires
        sources.len() > 0,
        !has_blank_name(sources),
    ensures
        dedup_by_name(sources).len() > 0,
        !has_blank_name(dedup_by_name(sources)),
        names_unique(dedup_by_name(sources)),
        all_pass(sources, probes, true) ==> forall|i: int|
            0 <= i < dedup_by_name(sources).len() ==> ((#[trigger] dedup_by_name(
                sources,
            )[i]).kind matches SourceKind::Command { command, .. } ==> !is_blank(command@)),
{
    let positions = lemma_dedup_keeps_firsts(sources);
    let kept = dedup_by_name(sources);
    lemma_dedup_names_unique(sources);
    assert(is_first(sources, 0));
    if has_blank_name(kept) {
        let i = choose|i: int| 0 <= i < kept.len() && is_blank((#[trigger] kept[i]).name@);
        assert(is_blank(sources[positions[i]].name@));
    }
    if all_pass(sources, probes, true) {
        assert forall|i: int| 0 <= i < kept.len() implies ((#[trigger] kept[i]).kind matches SourceKind::Command {
            command,
            ..
        } ==> !is_blank(command@)) by {
            let k = positions[i];
            assert(is_examined(sources, k, true));
            assert(sources[k].check(probes[k]) is Ok);
        }
    }
}

} // verus!
