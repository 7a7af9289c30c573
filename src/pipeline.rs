use vstd::prelude::*;
use vstd::set_lib::{lemma_int_range, lemma_len_subset, lemma_subset_equality, set_int_range};

verus! {

/// How a file's run ended.
#[derive(Clone, Copy, Debug, PartialEq, Eq, Structural)]
pub enum Outcome {
    Done,
    Skipped,
    Failed,
}

/// Where a file stands in its run.
#[derive(Clone, Copy, Debug, PartialEq, Eq, Structural)]
pub enum Phase {
    Pending,
    Searching,
    Extending,
    Writing,
    Finished(Outcome),
}

/// What the caller is to do next for a file.
#[derive(Clone, Copy, Debug, PartialEq, Eq, Structural)]
pub enum Action {
    /// Ask the platform at this position of the configured list for matches.
    Query(usize),
    /// Fetch the full details of the chosen match from this platform.
    Extend(usize),
    /// Write the final track into the file.
    Write,
    /// The file has reached its end; report it.
    Finish(Outcome),
}

/// The best confidence of a platform reaches the strictness (inclusive).
pub open spec fn accepts(best: Option<u64>, strictness: u64) -> bool {
    best matches Some(b) && b >= strictness
}

/// Some platform of the list produced an acceptable candidate.
pub open spec fn any_accepts(bests: Seq<Option<u64>>, strictness: u64) -> bool {
    exists|i: int| 0 <= i < bests.len() && accepts(#[trigger] bests[i], strictness)
}

/// The file reaches the matched state: it is not skipped and some platform accepts.
pub open spec fn reaches_match(skip: bool, bests: Seq<Option<u64>>, strictness: u64) -> bool {
    !skip && any_accepts(bests, strictness)
}

/// How a file's run ends, given whether it is skipped, the best confidence
/// each configured platform gives it, and whether fetching the details and
/// writing succeed.
pub open spec fn file_outcome(
    skip: bool,
    bests: Seq<Option<u64>>,
    strictness: u64,
    extend_ok: bool,
    write_ok: bool,
) -> Outcome {
    if !reaches_match(skip, bests, strictness) {
        Outcome::Skipped
    } else if !extend_ok || !write_ok {
        Outcome::Failed
    } else {
        Outcome::Done
    }
}

/// The run of one file, from `Pending` to `Finished`.
pub struct FileRun {
    pub phase: Phase,
    /// The position of the platform being asked.
    pub platform: usize,
    pub platform_count: usize,
    pub strictness: u64,
    pub multiplatform: bool,
    /// The positions of the platforms that gave an acceptable candidate, in order.
    pub accepted: Vec<usize>,
}

impl FileRun {
    pub open spec fn wf(&self) -> bool {
        &&& self.platform <= self.platform_count
        &&& forall|k: int|
            0 <= k < self.accepted@.len() ==> #[trigger] self.accepted@[k] < self.platform_count
        &&& self.phase == Phase::Searching ==> self.platform < self.platform_count
        &&& self.phase == Phase::Extending ==> self.accepted@.len() > 0
    }

    /// A run in `Pending` over `platform_count` platforms.
    pub fn new(platform_count: usize, strictness: u64, multiplatform: bool) -> (r: FileRun)
        ensures
            r.wf(),
            r.phase == Phase::Pending,
            r.platform == 0,
            r.platform_count == platform_count,
            r.strictness == strictness,
            r.multiplatform == multiplatform,
            r.accepted@.len() == 0,
    {
        FileRun {
            phase: Phase::Pending,
            platform: 0,
            platform_count,
            strictness,
            multiplatform,
            accepted: Vec::new(),
        }
    }

    /// Leaves `Pending`: a skipped file, or one with no platform to ask, ends
    /// as skipped; any other starts asking the first platform.
    pub fn start(&mut self, skip: bool) -> (a: Action)
        requires
            old(self).wf(),
            old(self).phase == Phase::Pending,
            old(self).platform == 0,
        ensures
            final(self).wf(),
            final(self).platform == 0,
            final(self).platform_count == old(self).platform_count,
            final(self).strictness == old(self).strictness,
            final(self).multiplatform == old(self).multiplatform,
            final(self).accepted == old(self).accepted,
            skip || old(self).platform_count == 0 ==> a == Action::Finish(Outcome::Skipped)
                && final(self).phase == Phase::Finished(Outcome::Skipped),
            !(skip || old(self).platform_count == 0) ==> a == Action::Query(0) && final(self).phase
                == Phase::Searching,
    {
        if skip || self.platform_count == 0 {
            self.phase = Phase::Finished(Outcome::Skipped);
            Action::Finish(Outcome::Skipped)
        } else {
            self.phase = Phase::Searching;
            Action::Query(0)
        }
    }

    /// Takes the best confidence that the platform being asked gave (`None`
    /// where it gave no candidate or failed). In fallback mode the first
    /// acceptable platform wins; in multiplatform mode every platform is asked.
    pub fn searched(&mut self, best: Option<u64>) -> (a: Action)
        requires
            old(self).wf(),
            old(self).phase == Phase::Searching,
        ensures
            final(self).wf(),
            final(self).platform_count == old(self).platform_count,
            final(self).strictness == old(self).strictness,
            final(self).multiplatform == old(self).multiplatform,
            final(self).accepted@ == (if accepts(best, old(self).strictness) {
                old(self).accepted@.push(old(self).platform)
            } else {
                old(self).accepted@
            }),
            ({
                let acc = final(self).accepted@;
                let last = old(self).platform + 1 >= old(self).platform_count;
                if accepts(best, old(self).strictness) && !old(self).multiplatform {
                    a == Action::Extend(old(self).platform) && final(self).phase == Phase::Extending
                        && final(self).platform == old(self).platform
                } else if !last {
                    a == Action::Query((old(self).platform + 1) as usize) && final(self).phase
                        == Phase::Searching && final(self).platform == old(self).platform + 1
                } else if acc.len() > 0 {
                    a == Action::Extend(acc[0]) && final(self).phase == Phase::Extending
                        && final(self).platform == old(self).platform
                } else {
                    a == Action::Finish(Outcome::Skipped) && final(self).phase == Phase::Finished(
                        Outcome::Skipped,
                    ) && final(self).platform == old(self).platform
                }
            }),
    {
        let ok = match best {
            Some(b) => b >= self.strictness,
            None => false,
        };
        if ok {
            self.accepted.push(self.platform);
            if !self.multiplatform {
                self.phase = Phase::Extending;
                return Action::Extend(self.platform);
            }
        }
        if self.platform + 1 < self.platform_count {
            self.platform = self.platform + 1;
            Action::Query(self.platform)
        } else if self.accepted.len() > 0 {
            self.phase = Phase::Extending;
            Action::Extend(self.accepted[0])
        } else {
            self.phase = Phase::Finished(Outcome::Skipped);
            Action::Finish(Outcome::Skipped)
        }
    }

    /// Takes whether fetching the details succeeded.
    pub fn extended(&mut self, ok: bool) -> (a: Action)
        requires
            old(self).wf(),
            old(self).phase == Phase::Extending,
        ensures
            final(self).wf(),
            final(self).accepted == old(self).accepted,
            final(self).platform == old(self).platform,
            final(self).platform_count == old(self).platform_count,
            ok ==> a == Action::Write && final(self).phase == Phase::Writing,
            !ok ==> a == Action::Finish(Outcome::Failed) && final(self).phase == Phase::Finished(
                Outcome::Failed,
            ),
    {
        if ok {
            self.phase = Phase::Writing;
            Action::Write
        } else {
            self.phase = Phase::Finished(Outcome::Failed);
            Action::Finish(Outcome::Failed)
        }
    }

    /// Takes whether writing the tags succeeded.
    pub fn written(&mut self, ok: bool) -> (a: Action)
        requires
            old(self).wf(),
            old(self).phase == Phase::Writing,
        ensures
            final(self).wf(),
            final(self).accepted == old(self).accepted,
            ok ==> a == Action::Finish(Outcome::Done) && final(self).phase == Phase::Finished(
                Outcome::Done,
            ),
            !ok ==> a == Action::Finish(Outcome::Failed) && final(self).phase == Phase::Finished(
                Outcome::Failed,
            ),
    {
        if ok {
            self.phase = Phase::Finished(Outcome::Done);
            Action::Finish(Outcome::Done)
        } else {
            self.phase = Phase::Finished(Outcome::Failed);
            Action::Finish(Outcome::Failed)
        }
    }
}

/// Runs one file's state machine to its end on answers given in advance:
/// `bests[i]` is what the platform at position `i` gives when asked.
pub fn run_file(
    skip: bool,
    bests: &Vec<Option<u64>>,
    strictness: u64,
    multiplatform: bool,
    extend_ok: bool,
    write_ok: bool,
) -> (r: Outcome)
    ensures
        r == file_outcome(skip, bests@, strictness, extend_ok, write_ok),
{
    let mut run = FileRun::new(bests.len(), strictness, multiplatform);
    let mut action = run.start(skip);
    if skip || bests.len() == 0 {
        return Outcome::Skipped;
    }
    while run.phase == Phase::Searching
        invariant
            run.wf(),
            run.platform_count == bests@.len(),
            run.strictness == strictness,
            run.multiplatform == multiplatform,
            !skip,
            run.phase == Phase::Searching ==> action == Action::Query(run.platform),
            run.phase == Phase::Searching || run.phase == Phase::Extending || run.phase
                == Phase::Finished(Outcome::Skipped),
            run.phase == Phase::Searching ==> (run.accepted@.len() > 0 <==> exists|j: int|
                0 <= j < run.platform && accepts(#[trigger] bests@[j], strictness)),
            run.phase == Phase::Extending ==> any_accepts(bests@, strictness),
            run.phase == Phase::Finished(Outcome::Skipped) ==> !any_accepts(bests@, strictness),
        decreases bests.len() - run.platform + (if run.phase == Phase::Searching {
            1int
        } else {
            0int
        }),
    {
        let p = run.platform;
        let best = bests[p];
        action = run.searched(best);
        proof {
            if run.phase == Phase::Extending {
                if accepts(best, strictness) {
                    assert(accepts(bests@[p as int], strictness));
                } else {
                    let j = choose|j: int| 0 <= j < p && accepts(#[trigger] bests@[j], strictness);
                }
            }
            if run.phase == Phase::Finished(Outcome::Skipped) {
                assert forall|j: int| 0 <= j < bests@.len() implies !accepts(
                    #[trigger] bests@[j],
                    strictness,
                ) by {
                    if j < p {
                    } else {
                        assert(j == p);
                    }
                }
            }
            if run.phase == Phase::Searching {
                if accepts(best, strictness) {
                    assert(accepts(bests@[p as int], strictness));
                }
                assert((run.accepted@.len() > 0) == exists|j: int|
                    0 <= j < run.platform && accepts(#[trigger] bests@[j], strictness)) by {
                    if exists|j: int| 0 <= j < run.platform && accepts(#[trigger] bests@[j], strictness) {
                        let j = choose|j: int| 0 <= j < run.platform && accepts(#[trigger] bests@[j], strictness);
                        if j < p {
                        }
                    }
                }
            }
        }
    }
    match run.phase {
        Phase::Extending => {
            action = run.extended(extend_ok);
            if !extend_ok {
                return Outcome::Failed;
            }
            action = run.written(write_ok);
            if write_ok {
                Outcome::Done
            } else {
                Outcome::Failed
            }
        },
        _ => Outcome::Skipped,
    }
}


/// The number of files, each given as (skipped, best confidence per
/// platform), that reach the matched state.
pub open spec fn matched_count(files: Seq<(bool, Seq<Option<u64>>)>, strictness: u64) -> nat
    decreases files.len(),
{
    if files.len() == 0 {
        0
    } else {
        matched_count(files.drop_last(), strictness) + if reaches_match(
            files.last().0,
            files.last().1,
            strictness,
        ) {
            1nat
        } else {
            0nat
        }
    }
}

/// Raising the strictness never adds a file that reaches the matched state,
/// and lowering it never removes one, all else equal.
pub proof fn lemma_strictness_monotone(files: Seq<(bool, Seq<Option<u64>>)>, lower: u64, higher: u64)
    requires
        lower <= higher,
    ensures
        matched_count(files, higher) <= matched_count(files, lower),
        forall|i: int|
            0 <= i < files.len() && reaches_match(files[i].0, files[i].1, higher) ==> reaches_match(
                files[i].0,
                files[i].1,
                lower,
            ),
    decreases files.len(),
{
    if files.len() > 0 {
        lemma_strictness_monotone(files.drop_last(), lower, higher);
        let f = files.last();
        if reaches_match(f.0, f.1, higher) {
            let j = choose|j: int| 0 <= j < f.1.len() && accepts(#[trigger] f.1[j], higher);
            assert(accepts(f.1[j], lower));
        }
    }
    assert forall|i: int|
        0 <= i < files.len() && reaches_match(files[i].0, files[i].1, higher) implies reaches_match(
        files[i].0,
        files[i].1,
        lower,
    ) by {
        let j = choose|j: int| 0 <= j < files[i].1.len() && accepts(#[trigger] files[i].1[j], higher);
        assert(accepts(files[i].1[j], lower));
    }
}

/// Whether a file carries the tagged marker after a run that ended with `outcome`.
pub open spec fn tagged_after(tagged: bool, outcome: Outcome) -> bool {
    tagged || outcome == Outcome::Done
}

/// A second run over a file, with skipping of tagged files on and the
/// platforms answering as before, skips the file, unless the first run
/// failed on it. `unmatchable` is whether the file has nothing to match on.
pub proof fn lemma_second_run_skips(
    tagged: bool,
    unmatchable: bool,
    skip_tagged: bool,
    bests: Seq<Option<u64>>,
    strictness: u64,
    extend_first: bool,
    write_first: bool,
    extend_second: bool,
    write_second: bool,
)
    requires
        file_outcome((skip_tagged && tagged) || unmatchable, bests, strictness, extend_first, write_first)
            != Outcome::Failed,
    ensures
        file_outcome(
            tagged_after(
                tagged,
                file_outcome((skip_tagged && tagged) || unmatchable, bests, strictness, extend_first, write_first),
            ) || unmatchable,
            bests,
            strictness,
            extend_second,
            write_second,
        ) == Outcome::Skipped,
{
}

/// The terminal report of one file, by its position in the input list.
#[derive(Clone, Debug)]
pub struct TaggingStatus {
    pub file: usize,
    pub outcome: Outcome,
    pub platform: Option<String>,
    pub message: String,
}

/// Counts of the files that ended in each way.
#[derive(Clone, Copy, Debug, PartialEq, Eq, Structural)]
pub struct RunSummary {
    pub done: u64,
    pub failed: u64,
    pub skipped: u64,
}

/// The files of a list of reports, in order.
pub open spec fn status_files(s: Seq<TaggingStatus>) -> Seq<int> {
    s.map_values(|t: TaggingStatus| t.file as int)
}

/// The number of reports with this outcome.
pub open spec fn count_outcome(s: Seq<TaggingStatus>, o: Outcome) -> nat
    decreases s.len(),
{
    if s.len() == 0 {
        0
    } else {
        count_outcome(s.drop_last(), o) + if s.last().outcome == o {
            1nat
        } else {
            0nat
        }
    }
}

/// Hands out the files of one run and collects one report per file.
/// Files are handed out in order; `next` of them have left `Pending`.
pub struct Scheduler {
    pub total: usize,
    pub next: usize,
    pub cancelled: bool,
    pub statuses: Vec<TaggingStatus>,
}

/// `new` is `old` with the next file handed out as `r`, or unchanged and
/// `r` is `None` where the run is cancelled or no file is left.
pub open spec fn take_next_post(old: Scheduler, new: Scheduler, r: Option<usize>) -> bool {
    if old.cancelled || old.next >= old.total {
        r is None && new == old
    } else {
        r == Some(old.next) && new == Scheduler { next: (old.next + 1) as usize, ..old }
    }
}

/// `new` is `old` with the report `st` added.
pub open spec fn finish_post(old: Scheduler, new: Scheduler, st: TaggingStatus) -> bool {
    new.total == old.total && new.next == old.next && new.cancelled == old.cancelled
        && new.statuses@ == old.statuses@.push(st)
}

/// One move of a run: handing out a file, reporting one, or cancelling.
pub open spec fn step(old: Scheduler, new: Scheduler) -> bool {
    (exists|r: Option<usize>| take_next_post(old, new, r)) || (exists|st: TaggingStatus|
        finish_post(old, new, st)) || new == Scheduler { cancelled: true, ..old }
}

proof fn lemma_distinct_below(fs: Seq<int>, n: int)
    requires
        0 <= n,
        fs.no_duplicates(),
        forall|k: int| 0 <= k < fs.len() ==> 0 <= #[trigger] fs[k] < n,
    ensures
        fs.len() <= n,
        fs.len() == n ==> forall|v: int| 0 <= v < n ==> fs.contains(v),
{
    fs.unique_seq_to_set();
    lemma_int_range(0, n);
    assert(fs.to_set().subset_of(set_int_range(0, n)));
    lemma_len_subset(fs.to_set(), set_int_range(0, n));
    if fs.len() == n {
        lemma_subset_equality(fs.to_set(), set_int_range(0, n));
        assert forall|v: int| 0 <= v < n implies fs.contains(v) by {
            assert(set_int_range(0, n).contains(v));
            assert(fs.to_set().contains(v));
        }
    }
}

impl Scheduler {
    pub open spec fn wf(&self) -> bool {
        &&& self.next <= self.total
        &&& status_files(self.statuses@).no_duplicates()
        &&& forall|k: int|
            0 <= k < self.statuses@.len() ==> #[trigger] self.statuses@[k].file < self.next
        &&& self.statuses@.len() <= self.next
    }

    /// The file has been reported.
    pub open spec fn reported(&self, file: int) -> bool {
        status_files(self.statuses@).contains(file)
    }

    /// A run over `total` files, none handed out.
    pub fn new(total: usize) -> (r: Scheduler)
        ensures
            r.wf(),
            r.total == total,
            r.next == 0,
            !r.cancelled,
            r.statuses@.len() == 0,
    {
        let r = Scheduler { total, next: 0, cancelled: false, statuses: Vec::new() };
        assert(status_files(r.statuses@) =~= Seq::<int>::empty());
        r
    }

    /// Asks the run to stop: no file is handed out after this.
    pub fn cancel(&mut self)
        ensures
            *final(self) == (Scheduler { cancelled: true, ..*old(self) }),
    {
        self.cancelled = true;
    }

    /// The next file to work on, unless the run is cancelled or all were handed out.
    pub fn take_next(&mut self) -> (r: Option<usize>)
        requires
            old(self).wf(),
        ensures
            final(self).wf(),
            take_next_post(*old(self), *final(self), r),
    {
        if self.cancelled || self.next >= self.total {
            return None;
        }
        let f = self.next;
        self.next = self.next + 1;
        Some(f)
    }

    /// Records the terminal report of a file that was handed out and not yet reported.
    pub fn finish(&mut self, status: TaggingStatus)
        requires
            old(self).wf(),
            status.file < old(self).next,
            !old(self).reported(status.file as int),
        ensures
            final(self).wf(),
            finish_post(*old(self), *final(self), status),
    {
        let ghost before = self.statuses@;
        self.statuses.push(status);
        proof {
            assert(status_files(self.statuses@) =~= status_files(before).push(status.file as int));
            lemma_distinct_below(status_files(self.statuses@), self.next as int);
        }
    }

    /// How many handed-out files have not been reported yet.
    pub fn in_flight(&self) -> (r: usize)
        requires
            self.wf(),
        ensures
            r == self.next - self.statuses@.len(),
    {
        self.next - self.statuses.len()
    }

    /// The run is over: every handed-out file is reported and no file will be handed out.
    pub fn is_finished(&self) -> (r: bool)
        requires
            self.wf(),
        ensures
            r == (self.statuses@.len() == self.next && (self.cancelled || self.next
                == self.total)),
    {
        self.statuses.len() == self.next && (self.cancelled || self.next == self.total)
    }

    /// The counts of each outcome among the reports.
    pub fn summary(&self) -> (r: RunSummary)
        ensures
            r.done == count_outcome(self.statuses@, Outcome::Done),
            r.failed == count_outcome(self.statuses@, Outcome::Failed),
            r.skipped == count_outcome(self.statuses@, Outcome::Skipped),
    {
        let mut r = RunSummary { done: 0, failed: 0, skipped: 0 };
        let mut i: usize = 0;
        while i < self.statuses.len()
            invariant
                i <= self.statuses@.len(),
                r.done == count_outcome(self.statuses@.subrange(0, i as int), Outcome::Done),
                r.failed == count_outcome(self.statuses@.subrange(0, i as int), Outcome::Failed),
                r.skipped == count_outcome(self.statuses@.subrange(0, i as int), Outcome::Skipped),
                r.done + r.failed + r.skipped == i,
            decreases self.statuses.len() - i,
        {
            proof {
                let pre = self.statuses@.subrange(0, i as int + 1);
                assert(pre.drop_last() =~= self.statuses@.subrange(0, i as int));
            }
            match self.statuses[i].outcome {
                Outcome::Done => r.done = r.done + 1,
                Outcome::Failed => r.failed = r.failed + 1,
                Outcome::Skipped => r.skipped = r.skipped + 1,
            }
            i = i + 1;
        }
        assert(self.statuses@.subrange(0, i as int) =~= self.statuses@);
        r
    }
}

/// A run that was not cancelled and is over has reported every input file
/// exactly once: as many reports as files, no file twice.
pub proof fn lemma_every_file_reported(s: Scheduler)
    requires
        s.wf(),
        !s.cancelled,
        s.next == s.total,
        s.statuses@.len() == s.next,
    ensures
        s.statuses@.len() == s.total,
        status_files(s.statuses@).no_duplicates(),
        forall|f: int| 0 <= f < s.total ==> s.reported(f),
{
    lemma_distinct_below(status_files(s.statuses@), s.total as int);
}

/// Once cancelled, a run stays cancelled and hands out no further file:
/// only the files already in flight can still move past `Pending`.
pub proof fn lemma_cancel_stops_new_files(trace: Seq<Scheduler>)
    requires
        trace.len() > 0,
        trace[0].cancelled,
        forall|i: int| 0 <= i < trace.len() - 1 ==> step(#[trigger] trace[i], trace[i + 1]),
    ensures
        forall|i: int| 0 <= i < trace.len() ==> (#[trigger] trace[i]).next == trace[0].next && trace[i].cancelled,
    decreases trace.len(),
{
    if trace.len() > 1 {
        let prev = trace.drop_last();
        assert forall|i: int| 0 <= i < prev.len() - 1 implies step(#[trigger] prev[i], prev[i + 1]) by {
            assert(step(trace[i], trace[i + 1]));
        }
        lemma_cancel_stops_new_files(prev);
        let n = trace.len() - 1;
        assert(step(trace[n - 1], trace[n]));
        assert(prev[n - 1] == trace[n - 1]);
        assert forall|i: int| 0 <= i < trace.len() implies (#[trigger] trace[i]).next == trace[0].next && trace[i].cancelled by {
            if i < n {
                assert(prev[i] == trace[i]);
            }
        }
    }
}


/// Which platforms of a run failed to authenticate; those are left out for
/// the rest of the run, and each failure is reported once.
pub struct PlatformGate {
    pub excluded: Vec<bool>,
}

impl PlatformGate {
    /// No platform excluded, for `count` platforms.
    pub fn new(count: usize) -> (r: PlatformGate)
        ensures
            r.excluded@.len() == count,
            forall|i: int| 0 <= i < count ==> !#[trigger] r.excluded@[i],
    {
        let mut excluded: Vec<bool> = Vec::new();
        let mut i: usize = 0;
        while i < count
            invariant
                i <= count,
                excluded@.len() == i,
                forall|k: int| 0 <= k < i ==> !#[trigger] excluded@[k],
            decreases count - i,
        {
            excluded.push(false);
            i = i + 1;
        }
        PlatformGate { excluded }
    }

    /// Records that a platform failed to authenticate. Returns whether this
    /// is its first failure, the one to report.
    pub fn auth_failed(&mut self, platform: usize) -> (first: bool)
        requires
            platform < old(self).excluded@.len(),
        ensures
            first == !old(self).excluded@[platform as int],
            final(self).excluded@ == old(self).excluded@.update(platform as int, true),
    {
        let first = !self.excluded[platform];
        self.excluded.set(platform, true);
        first
    }

    /// Whether the platform is left out of the run.
    pub fn is_excluded(&self, platform: usize) -> (r: bool)
        requires
            platform < self.excluded@.len(),
        ensures
            r == self.excluded@[platform as int],
    {
        self.excluded[platform]
    }
}

} // verus!
