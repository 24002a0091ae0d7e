//! The duplicate guard: a filter over the traversal stream that drops
//! directories and stops at the first file path that repeats the one just
//! before it.
//!
//! Policy: directories are filtered out first, and adjacency is judged on the
//! resulting stream of file paths only.
use vstd::prelude::*;

verus! {

/// One step of a recursive directory enumeration.
#[derive(Debug)]
pub struct DirectoryEntry {
    pub path: String,
    pub is_directory: bool,
}

/// The paths of the non-directory entries of `es`, in order.
pub open spec fn file_paths(es: Seq<DirectoryEntry>) -> Seq<Seq<char>>
    decreases es.len(),
{
    if es.len() == 0 {
        Seq::empty()
    } else {
        let rest = file_paths(es.drop_last());
        if es.last().is_directory {
            rest
        } else {
            rest.push(es.last().path@)
        }
    }
}

/// No item of `s` equals the item right before it.
pub open spec fn adjacent_free(s: Seq<Seq<char>>) -> bool {
    forall|i: int| 0 < i < s.len() ==> #[trigger] s[i] != s[i - 1]
}

/// Position `k` of `s` holds the first adjacent repetition of `s`.
pub open spec fn first_repeat_at(s: Seq<Seq<char>>, k: int) -> bool {
    &&& 0 < k < s.len()
    &&& s[k] == s[k - 1]
    &&& adjacent_free(s.take(k))
}

/// A detected adjacent duplicate: its 0-based position in the stream of file
/// paths, and the path that repeated.
#[derive(Debug)]
pub struct Duplicate {
    pub index: usize,
    pub path: String,
}

/// The file stream is no longer than the entry stream.
pub proof fn lemma_file_paths_len(es: Seq<DirectoryEntry>)
    ensures
        file_paths(es).len() <= es.len(),
    decreases es.len(),
{
    if es.len() > 0 {
        lemma_file_paths_len(es.drop_last());
    }
}

/// The file stream of a prefix of the entries is a prefix of their file stream.
pub proof fn lemma_file_paths_prefix(es: Seq<DirectoryEntry>, n: int)
    requires
        0 <= n <= es.len(),
    ensures
        file_paths(es.take(n)).len() <= file_paths(es).len(),
        file_paths(es).take(file_paths(es.take(n)).len() as int) == file_paths(es.take(n)),
    decreases es.len(),
{
    if n == es.len() {
        assert(es.take(n) =~= es);
        assert(file_paths(es).take(file_paths(es).len() as int) =~= file_paths(es));
    } else {
        let d = es.drop_last();
        assert(es.take(n) =~= d.take(n));
        lemma_file_paths_prefix(d, n);
        let l = file_paths(es.take(n)).len() as int;
        if !es.last().is_directory {
            assert(file_paths(es).take(l) =~= file_paths(d).take(l));
        }
    }
}

/// The paths held by a vector of strings.
pub open spec fn path_views(v: Seq<String>) -> Seq<Seq<char>> {
    v.map_values(|p: String| p@)
}

/// What the guard makes of one more entry.
#[derive(Clone, Copy, Debug, PartialEq, Eq, Structural)]
pub enum Verdict {
    /// A directory: not part of the file stream.
    Skip,
    /// A file whose path differs from the previous file's: pass it on.
    Emit,
    /// A file whose path repeats the previous one, at this position of the
    /// file stream: the stream ends here.
    Halt(usize),
    /// The stream had already ended.
    Exhausted,
}

/// Where the guard stands.
#[derive(Debug)]
pub enum GuardState {
    /// No file seen yet.
    Armed,
    /// The path of the last file passed on.
    Running(String),
    /// A duplicate was found.
    Halted,
}

/// The stateful duplicate guard. It remembers the last file path passed on and
/// how many files it has passed on.
pub struct DuplicateGuard {
    state: GuardState,
    passed: usize,
    fed: Ghost<Seq<DirectoryEntry>>,
}

impl DuplicateGuard {
    /// The entries handed to the guard so far.
    pub closed spec fn stream(&self) -> Seq<DirectoryEntry> {
        self.fed@
    }

    /// The guard's state agrees with the entries it has been handed.
    pub closed spec fn wf(&self) -> bool {
        let s = file_paths(self.fed@);
        if adjacent_free(s) {
            &&& self.passed == s.len()
            &&& match self.state {
                GuardState::Armed => s.len() == 0,
                GuardState::Running(p) => s.len() > 0 && p@ == s.last(),
                GuardState::Halted => false,
            }
        } else {
            &&& self.state is Halted
            &&& first_repeat_at(s, self.passed as int)
        }
    }

    /// A guard that has seen nothing.
    pub fn new() -> (r: DuplicateGuard)
        ensures
            r.wf(),
            r.stream() == Seq::<DirectoryEntry>::empty(),
    {
        DuplicateGuard { state: GuardState::Armed, passed: 0, fed: Ghost(Seq::empty()) }
    }

    /// Whether the guard has found a duplicate.
    pub fn is_halted(&self) -> (r: bool)
        requires
            self.wf(),
        ensures
            r == !adjacent_free(file_paths(self.stream())),
    {
        match self.state {
            GuardState::Halted => true,
            _ => false,
        }
    }

    /// Judges the next entry of the traversal.
    pub fn step(&mut self, entry: &DirectoryEntry) -> (v: Verdict)
        requires
            old(self).wf(),
            old(self).stream().len() < usize::MAX,
        ensures
            final(self).wf(),
            final(self).stream() == old(self).stream().push(*entry),
            ({
                let s = file_paths(old(self).stream());
                if !adjacent_free(s) {
                    v == Verdict::Exhausted
                } else if entry.is_directory {
                    v == Verdict::Skip
                } else if s.len() > 0 && s.last() == entry.path@ {
                    v == Verdict::Halt(s.len() as usize)
                } else {
                    v == Verdict::Emit
                }
            }),
    {
        let ghost s0 = file_paths(self.fed@);
        let ghost fed1 = self.fed@.push(*entry);
        assert(fed1.drop_last() =~= self.fed@);
        proof {
            lemma_file_paths_len(self.fed@);
        }
        let ghost s1 = file_paths(fed1);
        self.fed = Ghost(fed1);
        let halted = match self.state {
            GuardState::Halted => true,
            _ => false,
        };
        if halted {
            proof {
                let k = self.passed as int;
                if !entry.is_directory {
                    assert(s1 == s0.push(entry.path@));
                }
                assert(s1.take(k) =~= s0.take(k));
                assert(s1[k] == s1[k - 1]);
            }
            return Verdict::Exhausted;
        }
        if entry.is_directory {
            return Verdict::Skip;
        }
        assert(s1 == s0.push(entry.path@));
        let repeat = match &self.state {
            GuardState::Running(p) => *p == entry.path,
            _ => false,
        };
        if repeat {
            assert(s1.take(s0.len() as int) =~= s0);
            assert(s1[s0.len() as int] == s1[s0.len() - 1]);
            self.state = GuardState::Halted;
            Verdict::Halt(self.passed)
        } else {
            assert forall|i: int| 0 < i < s1.len() implies #[trigger] s1[i] != s1[i - 1] by {
                if i < s0.len() {
                    assert(s0[i] != s0[i - 1]);
                }
            }
            self.state = GuardState::Running(entry.path.clone());
            self.passed = self.passed + 1;
            Verdict::Emit
        }
    }
}

/// What a path-only traversal produced: the file paths passed on, in order,
/// and the duplicate that ended it early, if one did.
pub struct WalkOutcome {
    pub emitted: Vec<String>,
    pub duplicate: Option<Duplicate>,
}

/// The outcome owed for an entry stream: every file path up to the first
/// adjacent repetition, and that repetition.
pub open spec fn walk_spec(es: Seq<DirectoryEntry>, r: &WalkOutcome) -> bool {
    let s = file_paths(es);
    match r.duplicate {
        None => adjacent_free(s) && path_views(r.emitted@) == s,
        Some(d) => {
            &&& first_repeat_at(s, d.index as int)
            &&& d.path@ == s[d.index as int]
            &&& path_views(r.emitted@) == s.take(d.index as int)
        },
    }
}

impl WalkOutcome {
    /// The process exit status for this outcome: 0 when the traversal ran to
    /// its end, 1 when a duplicate stopped it.
    pub fn exit_status(&self) -> (r: i32)
        ensures
            r == (if self.duplicate is Some { 1i32 } else { 0i32 }),
    {
        match self.duplicate {
            Some(_) => 1,
            None => 0,
        }
    }
}

/// Runs the duplicate guard over a whole entry stream, in the path-only mode.
pub fn walk(entries: &Vec<DirectoryEntry>) -> (r: WalkOutcome)
    ensures
        walk_spec(entries@, &r),
{
    let mut guard = DuplicateGuard::new();
    let mut emitted: Vec<String> = Vec::new();
    let mut i: usize = 0;
    while i < entries.len()
        invariant
            0 <= i <= entries.len(),
            guard.wf(),
            guard.stream() == entries@.take(i as int),
            adjacent_free(file_paths(guard.stream())),
            path_views(emitted@) == file_paths(guard.stream()),
        decreases entries.len() - i,
    {
        let entry = &entries[i];
        assert(entries@.take(i + 1) =~= entries@.take(i as int).push(*entry));
        let ghost s0 = file_paths(guard.stream());
        let v = guard.step(entry);
        assert(guard.stream().drop_last() =~= entries@.take(i as int));
        match v {
            Verdict::Halt(k) => {
                proof {
                    assert(entries@.take(i + 1).drop_last() =~= entries@.take(i as int));
                    let s = file_paths(entries@.take(i + 1));
                    assert(s == s0.push(entry.path@));
                    assert(s.take(k as int) =~= s0);
                    lemma_file_paths_prefix(entries@, i + 1);
                    let full = file_paths(entries@);
                    assert(full.take(s.len() as int) == s);
                    assert(full[k as int] == s[k as int]);
                    assert(full[k - 1] == s[k - 1]);
                    assert(full.take(k as int) =~= s.take(k as int));
                }
                return WalkOutcome {
                    emitted,
                    duplicate: Some(Duplicate { index: k, path: entry.path.clone() }),
                };
            },
            Verdict::Emit => {
                let ghost e0 = emitted@;
                emitted.push(entry.path.clone());
                assert(path_views(emitted@) =~= path_views(e0).push(entry.path@));
            },
            _ => {},
        }
        i = i + 1;
    }
    assert(entries@.take(entries.len() as int) =~= entries@);
    WalkOutcome { emitted, duplicate: None }
}

/// A stream has at most one first adjacent repetition.
pub proof fn lemma_first_repeat_unique(s: Seq<Seq<char>>, j: int, k: int)
    requires
        first_repeat_at(s, j),
        first_repeat_at(s, k),
    ensures
        j == k,
{
    if j < k {
        assert(s.take(k)[j] == s.take(k)[j - 1]);
    } else if k < j {
        assert(s.take(j)[k] == s.take(j)[k - 1]);
    }
}

/// Every path of the file stream is the path of a non-directory entry, and
/// every non-directory entry's path is in the file stream.
pub proof fn lemma_file_paths_members(es: Seq<DirectoryEntry>)
    ensures
        forall|i: int|
            0 <= i < es.len() && !es[i].is_directory ==> file_paths(es).contains(
                #[trigger] es[i].path@,
            ),
        forall|j: int|
            0 <= j < file_paths(es).len() ==> exists|i: int|
                0 <= i < es.len() && !es[i].is_directory && es[i].path@ == #[trigger] file_paths(
                    es,
                )[j],
    decreases es.len(),
{
    if es.len() > 0 {
        let d = es.drop_last();
        lemma_file_paths_members(d);
        let s = file_paths(es);
        let sd = file_paths(d);
        assert forall|i: int| 0 <= i < es.len() && !es[i].is_directory implies s.contains(
            #[trigger] es[i].path@,
        ) by {
            if i < d.len() {
                assert(d[i] == es[i]);
                let w = choose|w: int| 0 <= w < sd.len() && sd[w] == es[i].path@;
                assert(s[w] == sd[w]);
            } else {
                assert(s[s.len() - 1] == es[i].path@);
            }
        }
        assert forall|j: int| 0 <= j < s.len() implies exists|i: int|
            0 <= i < es.len() && !es[i].is_directory && es[i].path@ == #[trigger] s[j] by {
            if j < sd.len() {
                assert(s[j] == sd[j]);
                let i = choose|i: int| 0 <= i < d.len() && !d[i].is_directory && d[i].path@ == sd[j];
                assert(es[i] == d[i]);
            } else {
                assert(es[es.len() - 1].path@ == s[j]);
            }
        }
    }
}

/// Where no file path repeats the one before it, the path-only traversal
/// passes on every file entry, in order and once each, and reports no
/// duplicate; and what it passes on is exactly the set of file paths.
pub proof fn lemma_walk_emits_all_files(es: Seq<DirectoryEntry>, r: &WalkOutcome)
    requires
        walk_spec(es, r),
        adjacent_free(file_paths(es)),
    ensures
        r.duplicate is None,
        path_views(r.emitted@) == file_paths(es),
        forall|i: int|
            0 <= i < es.len() && !es[i].is_directory ==> path_views(r.emitted@).contains(
                #[trigger] es[i].path@,
            ),
        forall|j: int|
            0 <= j < r.emitted@.len() ==> exists|i: int|
                0 <= i < es.len() && !es[i].is_directory && es[i].path@ == (
                #[trigger] r.emitted@[j])@,
{
    lemma_file_paths_members(es);
    let s = file_paths(es);
    if let Some(d) = r.duplicate {
        assert(s[d.index as int] == s[d.index - 1]);
    }
    assert forall|j: int| 0 <= j < r.emitted@.len() implies exists|i: int|
        0 <= i < es.len() && !es[i].is_directory && es[i].path@ == (
        #[trigger] r.emitted@[j])@ by {
        assert(path_views(r.emitted@)[j] == r.emitted@[j]@);
        assert(s[j] == r.emitted@[j]@);
    }
}

/// Where the file stream holds the same path twice in a row at positions
/// `k - 1` and `k`, with no earlier such pair, the traversal reports that one
/// duplicate at `k`, passes on every file path before it unchanged, and
/// nothing from position `k` on.
pub proof fn lemma_walk_halts_at_adjacent_pair(es: Seq<DirectoryEntry>, r: &WalkOutcome, k: int)
    requires
        walk_spec(es, r),
        first_repeat_at(file_paths(es), k),
    ensures
        r.duplicate is Some,
        r.duplicate->0.index == k,
        r.duplicate->0.path@ == file_paths(es)[k],
        path_views(r.emitted@) == file_paths(es).take(k),
{
    let s = file_paths(es);
    match r.duplicate {
        None => {
            assert(s[k] == s[k - 1]);
        },
        Some(d) => {
            lemma_first_repeat_unique(s, d.index as int, k);
        },
    }
}

/// A path that comes back after another path in between is no duplicate:
/// for a file stream `[a, b, a]` with `a != b` all three are passed on.
pub proof fn lemma_walk_passes_separated_repeat(
    es: Seq<DirectoryEntry>,
    r: &WalkOutcome,
    a: Seq<char>,
    b: Seq<char>,
)
    requires
        walk_spec(es, r),
        file_paths(es) == seq![a, b, a],
        a != b,
    ensures
        r.duplicate is None,
        path_views(r.emitted@) == seq![a, b, a],
{
    let s = file_paths(es);
    assert forall|i: int| 0 < i < s.len() implies #[trigger] s[i] != s[i - 1] by {
        if i == 1 {
            assert(s[1] == b && s[0] == a);
        } else {
            assert(s[2] == a && s[1] == b);
        }
    }
}

/// Two traversals of the same entry stream produce the same output and the
/// same verdict.
pub proof fn lemma_walk_repeatable(es: Seq<DirectoryEntry>, r1: &WalkOutcome, r2: &WalkOutcome)
    requires
        walk_spec(es, r1),
        walk_spec(es, r2),
    ensures
        path_views(r1.emitted@) == path_views(r2.emitted@),
        r1.duplicate is Some <==> r2.duplicate is Some,
        r1.duplicate is Some ==> r1.duplicate->0.index == r2.duplicate->0.index
            && r1.duplicate->0.path@ == r2.duplicate->0.path@,
{
    let s = file_paths(es);
    match (r1.duplicate, r2.duplicate) {
        (Some(d1), Some(d2)) => {
            lemma_first_repeat_unique(s, d1.index as int, d2.index as int);
        },
        (Some(d1), None) => {
            assert(s[d1.index as int] == s[d1.index - 1]);
        },
        (None, Some(d2)) => {
            assert(s[d2.index as int] == s[d2.index - 1]);
        },
        (None, None) => {},
    }
}

/// A stream of directories alone, as from an empty root, yields no output
/// and a success status.
pub proof fn lemma_walk_of_no_files(es: Seq<DirectoryEntry>, r: &WalkOutcome)
    requires
        walk_spec(es, r),
        forall|i: int| 0 <= i < es.len() ==> (#[trigger] es[i]).is_directory,
    ensures
        r.emitted@.len() == 0,
        r.duplicate is None,
{
    lemma_only_directories(es);
    if let Some(d) = r.duplicate {
        assert(first_repeat_at(file_paths(es), d.index as int));
    }
    assert(path_views(r.emitted@).len() == r.emitted@.len());
}

/// A stream of directories alone has an empty file stream.
pub proof fn lemma_only_directories(es: Seq<DirectoryEntry>)
    requires
        forall|i: int| 0 <= i < es.len() ==> (#[trigger] es[i]).is_directory,
    ensures
        file_paths(es).len() == 0,
    decreases es.len(),
{
    if es.len() > 0 {
        let d = es.drop_last();
        assert forall|i: int| 0 <= i < d.len() implies (#[trigger] d[i]).is_directory by {
            assert(d[i] == es[i]);
        }
        lemma_only_directories(d);
        assert(es[es.len() - 1].is_directory);
    }
}

} // verus!
