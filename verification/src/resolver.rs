//! Output path resolution: from a requested output, probe by probe, to an
//! unused path in a directory that exists and takes new files.

use crate::error::{Error, ErrorKind};
use crate::output_path::{
    candidate, candidate_name, file_name_for, is_absolute, join_path, joined, leaf_of,
    output_file_name, parent_of, path_is_absolute, split_path,
};
use crate::text::same_text;
use vstd::prelude::*;
use vstd::string::*;

verus! {

/// How many paths are probed before the search for an unused one gives up.
pub const MAX_ATTEMPTS: u32 = 1000;

/// Where a resolution stands.
#[derive(Clone, Copy, Debug, PartialEq, Eq, Structural)]
pub enum Stage {
    /// It is not yet known whether the directory is there.
    Directory,
    /// The name with the given number is the next to try.
    Search(u32),
    /// The name with the given number is unused; the directory is yet to
    /// show that it takes new files.
    Writable(u32),
    /// Done: the output goes to the name with the given number.
    Resolved(u32),
    /// Done: no path can be had.
    Failed(ErrorKind),
}

/// What a resolution needs to learn from the file system.
#[derive(Clone, Copy, Debug, PartialEq, Eq, Structural)]
pub enum ProbeKind {
    /// Does this directory exist?
    DirectoryExists,
    /// Is this directory there, once created if it was absent?
    EnsureDirectory,
    /// Is there anything at this path?
    PathExists,
    /// Can a marker file be created in this directory, and deleted again?
    CanWrite,
}

/// A question to the file system, answered by yes or no.
#[derive(Debug, PartialEq, Eq)]
pub struct Probe {
    pub kind: ProbeKind,
    pub path: String,
}

/// The resolution of one requested output, from probe to probe.
#[derive(Debug, PartialEq, Eq)]
pub struct Resolver {
    /// The directory that the output goes to.
    pub directory: String,
    /// Whether the request named that directory itself.
    pub given: bool,
    /// The file name to save under, if it is unused.
    pub file_name: String,
    pub stage: Stage,
}

/// A resolution as a mathematical value.
pub struct Resolution {
    pub directory: Seq<char>,
    pub given: bool,
    pub file_name: Seq<char>,
    pub stage: Stage,
}

impl Resolution {
    /// The resolution of a fresh request. A relative request goes to the
    /// default directory under a name made from all of it; an absolute one
    /// stays in its own directory, under a name made from its last component.
    pub open spec fn start(
        requested: Seq<char>,
        format: Seq<char>,
        default_directory: Seq<char>,
    ) -> Resolution {
        if is_absolute(requested) {
            Resolution {
                directory: parent_of(requested),
                given: true,
                file_name: file_name_for(leaf_of(requested), format),
                stage: Stage::Directory,
            }
        } else {
            Resolution {
                directory: default_directory,
                given: false,
                file_name: file_name_for(requested, format),
                stage: Stage::Directory,
            }
        }
    }

    /// The path of the `n`-th name to try.
    pub open spec fn path(self, n: nat) -> Seq<char> {
        joined(self.directory, candidate(self.file_name, n))
    }

    /// Whether the numbers in the stage are within the limit on attempts.
    pub open spec fn wf(self) -> bool {
        match self.stage {
            Stage::Directory => true,
            Stage::Search(n) => n < MAX_ATTEMPTS,
            Stage::Writable(n) => n < MAX_ATTEMPTS,
            Stage::Resolved(n) => n < MAX_ATTEMPTS,
            Stage::Failed(kind) => kind == ErrorKind::InvalidDestination || kind
                == ErrorKind::IoError || kind == ErrorKind::PathExhausted || kind
                == ErrorKind::NotWritable,
        }
    }

    /// Whether the resolution has come to its result.
    pub open spec fn finished(self) -> bool {
        self.stage is Resolved || self.stage is Failed
    }

    /// The question that has to be answered next, if any.
    pub open spec fn probe(self) -> Option<(ProbeKind, Seq<char>)> {
        match self.stage {
            Stage::Directory => Some(
                (
                    if self.given {
                        ProbeKind::DirectoryExists
                    } else {
                        ProbeKind::EnsureDirectory
                    },
                    self.directory,
                ),
            ),
            Stage::Search(n) => Some((ProbeKind::PathExists, self.path(n as nat))),
            Stage::Writable(_) => Some((ProbeKind::CanWrite, self.directory)),
            Stage::Resolved(_) => None,
            Stage::Failed(_) => None,
        }
    }

    /// The stage that follows when the pending question is answered by `yes`.
    pub open spec fn next_stage(self, yes: bool) -> Stage {
        match self.stage {
            Stage::Directory => if yes {
                Stage::Search(0)
            } else if self.given {
                Stage::Failed(ErrorKind::InvalidDestination)
            } else {
                Stage::Failed(ErrorKind::IoError)
            },
            Stage::Search(n) => if !yes {
                Stage::Writable(n)
            } else if n + 1 >= MAX_ATTEMPTS {
                Stage::Failed(ErrorKind::PathExhausted)
            } else {
                Stage::Search((n + 1) as u32)
            },
            Stage::Writable(n) => if yes {
                Stage::Resolved(n)
            } else {
                Stage::Failed(ErrorKind::NotWritable)
            },
            Stage::Resolved(n) => Stage::Resolved(n),
            Stage::Failed(kind) => Stage::Failed(kind),
        }
    }

    /// The resolution after the pending question was answered by `yes`.
    pub open spec fn step(self, yes: bool) -> Resolution {
        Resolution { stage: self.next_stage(yes), ..self }
    }

    /// The result, once there is one: the resolved path, or the kind of
    /// failure.
    pub open spec fn outcome(self) -> Option<Result<Seq<char>, ErrorKind>> {
        match self.stage {
            Stage::Resolved(n) => Some(Ok(self.path(n as nat))),
            Stage::Failed(kind) => Some(Err(kind)),
            _ => None,
        }
    }

    /// A bound on the number of questions still to come.
    pub open spec fn remaining(self) -> nat {
        match self.stage {
            Stage::Directory => (MAX_ATTEMPTS + 2) as nat,
            Stage::Search(n) => (MAX_ATTEMPTS - n + 1) as nat,
            Stage::Writable(_) => 1,
            Stage::Resolved(_) => 0,
            Stage::Failed(_) => 0,
        }
    }
}

impl View for Resolver {
    type V = Resolution;

    open spec fn view(&self) -> Resolution {
        Resolution {
            directory: self.directory@,
            given: self.given,
            file_name: self.file_name@,
            stage: self.stage,
        }
    }
}

impl Resolver {
    /// Whether the numbers in the stage are within the limit on attempts.
    pub open spec fn wf(&self) -> bool {
        self@.wf()
    }

    /// Tells whether the numbers in the stage are within the limit on
    /// attempts.
    pub fn is_well_formed(&self) -> (b: bool)
        ensures
            b == self.wf(),
    {
        match self.stage {
            Stage::Directory => true,
            Stage::Search(n) => n < MAX_ATTEMPTS,
            Stage::Writable(n) => n < MAX_ATTEMPTS,
            Stage::Resolved(n) => n < MAX_ATTEMPTS,
            Stage::Failed(kind) => match kind {
                ErrorKind::InvalidDestination => true,
                ErrorKind::IoError => true,
                ErrorKind::PathExhausted => true,
                ErrorKind::NotWritable => true,
                _ => false,
            },
        }
    }

    /// Begins to resolve `requested` for an output in `format`. A request
    /// that is not absolute is saved in `default_directory`.
    pub fn new(requested: &str, format: &str, default_directory: &str) -> (r: Resolver)
        ensures
            r@ == Resolution::start(requested@, format@, default_directory@),
            r.wf(),
    {
        if path_is_absolute(requested) {
            let (directory, leaf) = split_path(requested);
            Resolver {
                directory,
                given: true,
                file_name: output_file_name(leaf.as_str(), format),
                stage: Stage::Directory,
            }
        } else {
            Resolver {
                directory: String::from_str(default_directory),
                given: false,
                file_name: output_file_name(requested, format),
                stage: Stage::Directory,
            }
        }
    }

    /// Tells whether the resolution has come to its result.
    pub fn is_finished(&self) -> (b: bool)
        ensures
            b == self@.finished(),
    {
        match self.stage {
            Stage::Resolved(_) => true,
            Stage::Failed(_) => true,
            _ => false,
        }
    }

    /// The question to put to the file system next; none once the
    /// resolution is finished.
    pub fn pending(&self) -> (r: Option<Probe>)
        ensures
            match r {
                Some(p) => self@.probe() == Some((p.kind, p.path@)),
                None => self@.probe() is None,
            },
    {
        match self.stage {
            Stage::Directory => Some(
                Probe {
                    kind: if self.given {
                        ProbeKind::DirectoryExists
                    } else {
                        ProbeKind::EnsureDirectory
                    },
                    path: self.directory.clone(),
                },
            ),
            Stage::Search(n) => {
                let name = candidate_name(self.file_name.as_str(), n);
                Some(
                    Probe {
                        kind: ProbeKind::PathExists,
                        path: join_path(self.directory.as_str(), name.as_str()),
                    },
                )
            },
            Stage::Writable(_) => Some(
                Probe { kind: ProbeKind::CanWrite, path: self.directory.clone() },
            ),
            Stage::Resolved(_) => None,
            Stage::Failed(_) => None,
        }
    }

    /// Takes the answer to the pending question and moves on. Once the
    /// resolution is finished, an answer changes nothing.
    pub fn reply(&mut self, yes: bool)
        requires
            old(self).wf(),
        ensures
            final(self)@ == old(self)@.step(yes),
            final(self).wf(),
    {
        let next = match self.stage {
            Stage::Directory => if yes {
                Stage::Search(0)
            } else if self.given {
                Stage::Failed(ErrorKind::InvalidDestination)
            } else {
                Stage::Failed(ErrorKind::IoError)
            },
            Stage::Search(n) => if !yes {
                Stage::Writable(n)
            } else if n + 1 >= MAX_ATTEMPTS {
                Stage::Failed(ErrorKind::PathExhausted)
            } else {
                Stage::Search(n + 1)
            },
            Stage::Writable(n) => if yes {
                Stage::Resolved(n)
            } else {
                Stage::Failed(ErrorKind::NotWritable)
            },
            Stage::Resolved(n) => Stage::Resolved(n),
            Stage::Failed(kind) => Stage::Failed(kind),
        };
        self.stage = next;
    }

    /// The result, once there is one: the path to write the output to, or
    /// the failure, which names the directory unless the names ran out.
    pub fn outcome(&self) -> (r: Option<Result<String, Error>>)
        ensures
            match r {
                Some(Ok(path)) => self@.outcome() == Some(
                    Ok::<Seq<char>, ErrorKind>(path@),
                ),
                Some(Err(e)) => self@.outcome() == Some(Err::<Seq<char>, ErrorKind>(e.kind))
                    && e.detail@ == if e.kind == ErrorKind::PathExhausted {
                    Seq::<char>::empty()
                } else {
                    self.directory@
                },
                None => self@.outcome() is None,
            },
    {
        match self.stage {
            Stage::Resolved(n) => {
                let name = candidate_name(self.file_name.as_str(), n);
                Some(Ok(join_path(self.directory.as_str(), name.as_str())))
            },
            Stage::Failed(kind) => Some(
                Err(
                    match kind {
                        ErrorKind::PathExhausted => Error::new(kind),
                        _ => Error::with_detail(kind, self.directory.as_str()),
                    },
                ),
            ),
            _ => None,
        }
    }
}

impl Resolution {
    /// The number of the first name, from `from` on and within the limit on
    /// attempts, whose path is not among `taken`.
    pub open spec fn first_free(self, taken: Set<Seq<char>>, from: nat) -> Option<nat>
        decreases MAX_ATTEMPTS - from,
    {
        if from >= MAX_ATTEMPTS {
            None
        } else if !taken.contains(self.path(from)) {
            Some(from)
        } else {
            self.first_free(taken, from + 1)
        }
    }

    /// The resolution after its search for an unused name has run to its
    /// end, in a directory where exactly the paths in `taken` are in use.
    pub open spec fn searched(self, taken: Set<Seq<char>>) -> Resolution
        decreases self.remaining(),
    {
        if self.wf() && self.stage is Search {
            self.step(taken.contains(self.path(self.stage->Search_0 as nat))).searched(taken)
        } else {
            self
        }
    }
}

/// Every answer brings an unfinished resolution closer to its end, so that
/// no resolution asks more than `MAX_ATTEMPTS + 2` questions.
pub proof fn lemma_reply_makes_progress(r: Resolution, yes: bool)
    requires
        r.wf(),
        !r.finished(),
    ensures
        r.step(yes).wf(),
        r.step(yes).remaining() < r.remaining(),
        r.remaining() <= MAX_ATTEMPTS + 2,
{
}

/// A finished resolution has a result, an unfinished one a question, and
/// never both: whoever drives it always knows what to do next.
pub proof fn lemma_probe_or_outcome(r: Resolution)
    ensures
        r.finished() <==> r.outcome() is Some,
        r.finished() <==> r.probe() is None,
{
}

/// What `first_free` finds is unused, and everything it passed over is
/// taken; where it finds nothing, every name within the limit is taken.
pub proof fn lemma_first_free(r: Resolution, taken: Set<Seq<char>>, from: nat)
    ensures
        match r.first_free(taken, from) {
            Some(n) => from <= n < MAX_ATTEMPTS && !taken.contains(r.path(n)) && forall|k: nat|
                from <= k < n ==> taken.contains(#[trigger] r.path(k)),
            None => forall|k: nat|
                from <= k < MAX_ATTEMPTS ==> taken.contains(#[trigger] r.path(k)),
        },
    decreases MAX_ATTEMPTS - from,
{
    if from < MAX_ATTEMPTS && taken.contains(r.path(from)) {
        lemma_first_free(r, taken, from + 1);
    }
}

/// Where every name from `from` up to `n` is taken, the first unused name
/// is `n` if that is unused and within the limit, and there is none if `n`
/// is the limit.
pub proof fn lemma_first_free_is(r: Resolution, taken: Set<Seq<char>>, from: nat, n: nat)
    requires
        from <= n <= MAX_ATTEMPTS,
        forall|k: nat| from <= k < n ==> taken.contains(#[trigger] r.path(k)),
    ensures
        n < MAX_ATTEMPTS && !taken.contains(r.path(n)) ==> r.first_free(taken, from) == Some(n),
        n == MAX_ATTEMPTS ==> r.first_free(taken, from) is None,
    decreases n - from,
{
    if from < n {
        assert(taken.contains(r.path(from)));
        lemma_first_free_is(r, taken, from + 1, n);
    }
}

/// The search settles on the first unused name: it goes on to test the
/// directory for that name, or fails because the names ran out.
pub proof fn lemma_search_finds_first_free(r: Resolution, taken: Set<Seq<char>>)
    requires
        r.wf(),
        r.stage is Search,
    ensures
        r.searched(taken).stage == match r.first_free(taken, r.stage->Search_0 as nat) {
            Some(n) => Stage::Writable(n as u32),
            None => Stage::Failed(ErrorKind::PathExhausted),
        },
        r.searched(taken).directory == r.directory,
        r.searched(taken).file_name == r.file_name,
    decreases r.remaining(),
{
    let n = r.stage->Search_0;
    let next = r.step(taken.contains(r.path(n as nat)));
    assert(r.searched(taken) == next.searched(taken));
    if next.stage is Search {
        lemma_search_finds_first_free(next, taken);
        lemma_first_free_same_paths(next, r, taken, (n + 1) as nat);
    } else {
        assert(next.searched(taken) == next);
    }
}

/// Two resolutions with the same directory and file name find the same
/// unused name.
proof fn lemma_first_free_same_paths(a: Resolution, b: Resolution, taken: Set<Seq<char>>, from: nat)
    requires
        a.directory == b.directory,
        a.file_name == b.file_name,
    ensures
        a.first_free(taken, from) == b.first_free(taken, from),
    decreases MAX_ATTEMPTS - from,
{
    if from < MAX_ATTEMPTS {
        assert(a.path(from) == b.path(from));
        lemma_first_free_same_paths(a, b, taken, from + 1);
    }
}

/// The paths that a list of strings names.
pub open spec fn paths_of(list: Seq<String>) -> Set<Seq<char>> {
    Set::new(|p: Seq<char>| exists|i: int| 0 <= i < list.len() && (#[trigger] list[i])@ == p)
}

impl Resolution {
    /// The result of a resolution that runs in a file system where the
    /// directory is there or not, exactly the paths in `taken` are in use,
    /// and the directory takes new files or not: the first unused name in
    /// the directory, if the directory is there, a name is left within the
    /// limit on attempts, and the directory is writable.
    pub open spec fn result_in(
        self,
        directory_exists: bool,
        taken: Set<Seq<char>>,
        writable: bool,
    ) -> Result<Seq<char>, ErrorKind> {
        if !directory_exists {
            Err(
                if self.given {
                    ErrorKind::InvalidDestination
                } else {
                    ErrorKind::IoError
                },
            )
        } else {
            match self.first_free(taken, 0) {
                None => Err(ErrorKind::PathExhausted),
                Some(n) => if writable {
                    Ok(self.path(n))
                } else {
                    Err(ErrorKind::NotWritable)
                },
            }
        }
    }
}

/// Resolving the same request again, once the path that was resolved first
/// is in use, gives another path, which is again unused: the name with a
/// higher number.
pub proof fn lemma_retry_finds_fresh_path(
    r: Resolution,
    taken: Set<Seq<char>>,
    first: Seq<char>,
    second: Seq<char>,
)
    requires
        r.result_in(true, taken, true) == Ok::<Seq<char>, ErrorKind>(first),
        r.result_in(true, taken.insert(first), true) == Ok::<Seq<char>, ErrorKind>(second),
    ensures
        !taken.contains(first),
        !taken.contains(second),
        second != first,
        ({
            let n = r.first_free(taken, 0);
            let m = r.first_free(taken.insert(first), 0);
            n is Some && m is Some && n->0 < m->0 && first == r.path(n->0) && second == r.path(m->0)
        }),
{
    let more = taken.insert(first);
    lemma_first_free(r, taken, 0);
    lemma_first_free(r, more, 0);
    let n = r.first_free(taken, 0)->0;
    let m = r.first_free(more, 0)->0;
    assert(!more.contains(r.path(m)));
    if m < n {
        assert(taken.contains(r.path(m)));
    }
}

/// A resolution gives a path only if the directory is there and takes new
/// files, and never a path that is in use.
pub proof fn lemma_resolved_path_is_unused(
    r: Resolution,
    directory_exists: bool,
    taken: Set<Seq<char>>,
    writable: bool,
)
    ensures
        r.result_in(directory_exists, taken, writable) matches Ok(path) ==> directory_exists
            && writable && !taken.contains(path),
{
    lemma_first_free(r, taken, 0);
}

/// Tells whether `list` names `path`.
pub fn names_path(list: &Vec<String>, path: &str) -> (b: bool)
    ensures
        b == paths_of(list@).contains(path@),
{
    let mut i: usize = 0;
    while i < list.len()
        invariant
            i <= list.len(),
            forall|k: int| 0 <= k < i ==> (#[trigger] list@[k])@ != path@,
        decreases list.len() - i,
    {
        if same_text(list[i].as_str(), path) {
            return true;
        }
        i += 1;
    }
    false
}

/// Resolves `requested` for an output in `format` against a file system
/// that is known beforehand: whether the directory of the output is there
/// (for a request that is not absolute, `default_directory`, after the
/// attempt to create it), which paths are in use, and whether the
/// directory takes new files.
pub fn resolve_among(
    requested: &str,
    format: &str,
    default_directory: &str,
    directory_exists: bool,
    taken: &Vec<String>,
    writable: bool,
) -> (r: Result<String, Error>)
    ensures
        ({
            let start = Resolution::start(requested@, format@, default_directory@);
            match r {
                Ok(path) => start.result_in(directory_exists, paths_of(taken@), writable) == Ok::<
                    Seq<char>,
                    ErrorKind,
                >(path@),
                Err(e) => start.result_in(directory_exists, paths_of(taken@), writable) == Err::<
                    Seq<char>,
                    ErrorKind,
                >(e.kind) && e.detail@ == if e.kind == ErrorKind::PathExhausted {
                    Seq::<char>::empty()
                } else {
                    start.directory
                },
            }
        }),
{
    let mut resolver = Resolver::new(requested, format, default_directory);
    let ghost start = resolver@;
    let ghost used = paths_of(taken@);
    let ghost result = start.result_in(directory_exists, used, writable);
    resolver.reply(directory_exists);
    while !resolver.is_finished()
        invariant
            resolver.wf(),
            used == paths_of(taken@),
            result == start.result_in(directory_exists, used, writable),
            resolver@.directory == start.directory,
            resolver@.file_name == start.file_name,
            match resolver@.stage {
                Stage::Search(n) => directory_exists && forall|k: nat|
                    k < n ==> used.contains(#[trigger] start.path(k)),
                Stage::Resolved(_) => resolver@.outcome() == Some(result),
                Stage::Failed(_) => resolver@.outcome() == Some(result),
                _ => false,
            },
        decreases resolver@.remaining(),
    {
        let ghost before = resolver@;
        let ghost n = before.stage->Search_0 as nat;
        let in_use = match resolver.pending() {
            Some(probe) => names_path(taken, probe.path.as_str()),
            None => false,
        };
        resolver.reply(in_use);
        proof {
            lemma_reply_makes_progress(before, in_use);
            lemma_first_free_is(start, used, 0, n);
            if in_use {
                lemma_first_free_is(start, used, 0, n + 1);
            }
        }
        if !in_use {
            resolver.reply(writable);
        }
    }
    match resolver.outcome() {
        Some(result) => result,
        None => unreached(),
    }
}

} // verus!
