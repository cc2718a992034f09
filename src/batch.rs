//! The batch aggregate: root directories, the rule table, and the job list
//! with each job's status. A run proceeds job by job: `pending_jobs` takes
//! the snapshot, `run_job` decides what to invoke for one job, and
//! `finish_job` records how it went.

use vstd::prelude::*;
use vstd::string::StringExecFns;

use crate::command::{resolve, resolve_args, texts};
use crate::digest::{sha256_hex, ContentDigest};
use crate::paths::{extension_of, file_extension, join, join_path, relative_path, relative_to};

verus! {

/// Extension of the rule a new batch starts with.
pub const DEFAULT_EXTENSION: &'static str = "mp4";

/// Command template of the rule a new batch starts with.
pub const DEFAULT_COMMAND: &'static str = "ffmpeg -i $file_path -c:v libx264 -preset slow";

/// Name of the batch definition file inside a source directory.
pub const CONFIG_FILE_NAME: &'static str = "dbfc.config";

/// Where a job stands: `Pending` until a run settles it as `Done` or `Error`.
#[derive(PartialEq, Eq, Structural, Clone, Copy, Debug)]
pub enum JobStatus {
    Pending,
    Done,
    Error,
}

/// One file's unit of conversion work.
pub struct Job {
    source_path: String,
    source_sha256sum: String,
    destination_path: String,
    destination_sha256sum: String,
    status: JobStatus,
}

/// A job as values: its paths, hashes and status.
pub struct JobView {
    pub source_path: Seq<char>,
    pub source_hash: Seq<char>,
    pub destination_path: Seq<char>,
    pub destination_hash: Seq<char>,
    pub status: JobStatus,
}

impl View for Job {
    type V = JobView;

    closed spec fn view(&self) -> JobView {
        JobView {
            source_path: self.source_path@,
            source_hash: self.source_sha256sum@,
            destination_path: self.destination_path@,
            destination_hash: self.destination_sha256sum@,
            status: self.status,
        }
    }
}

impl Job {
    /// A job with the given fields, as read back from a batch definition.
    pub fn from_parts(
        source_path: String,
        source_sha256sum: String,
        destination_path: String,
        destination_sha256sum: String,
        status: JobStatus,
    ) -> (j: Job)
        ensures
            j@ == (JobView {
                source_path: source_path@,
                source_hash: source_sha256sum@,
                destination_path: destination_path@,
                destination_hash: destination_sha256sum@,
                status,
            }),
    {
        Job { source_path, source_sha256sum, destination_path, destination_sha256sum, status }
    }

    pub fn source_path(&self) -> (r: &String)
        ensures
            r@ == self@.source_path,
    {
        &self.source_path
    }

    pub fn source_sha256sum(&self) -> (r: &String)
        ensures
            r@ == self@.source_hash,
    {
        &self.source_sha256sum
    }

    pub fn destination_path(&self) -> (r: &String)
        ensures
            r@ == self@.destination_path,
    {
        &self.destination_path
    }

    pub fn destination_sha256sum(&self) -> (r: &String)
        ensures
            r@ == self@.destination_hash,
    {
        &self.destination_sha256sum
    }

    pub fn status(&self) -> (r: JobStatus)
        ensures
            r == self@.status,
    {
        self.status
    }
}

/// Path of the batch definition file kept in directory `dir`.
pub fn config_path(dir: &str) -> (r: String)
    ensures
        r@ == dir@ + seq!['/'] + CONFIG_FILE_NAME@,
{
    let mut r = String::from_str(dir);
    let sep = "/";
    proof {
        reveal_strlit("/");
    }
    r.append(sep);
    r.append(CONFIG_FILE_NAME);
    r
}

/// Whether no two rules share an extension.
fn rules_unique(rules: &Vec<(String, String)>) -> (r: bool)
    ensures
        r == keys_unique(rule_views(rules@)),
{
    let ghost v = rule_views(rules@);
    let mut b: usize = 0;
    while b < rules.len()
        invariant
            v == rule_views(rules@),
            b <= rules.len(),
            forall|x: int, y: int| 0 <= x < y < b ==> v[x].0 != v[y].0,
        decreases rules.len() - b,
    {
        let mut a: usize = 0;
        while a < b
            invariant
                v == rule_views(rules@),
                a <= b < rules.len(),
                forall|x: int, y: int| 0 <= x < y < b ==> v[x].0 != v[y].0,
                forall|x: int| 0 <= x < a ==> v[x].0 != v[b as int].0,
            decreases b - a,
        {
            if rules[a].0 == rules[b].0 {
                assert(v[a as int].0 == v[b as int].0);
                return false;
            }
            a = a + 1;
        }
        b = b + 1;
    }
    true
}

/// A freshly scanned job: not yet converted, nothing at the destination.
pub open spec fn pending_job(path: Seq<char>, hash: Seq<char>) -> JobView {
    JobView {
        source_path: path,
        source_hash: hash,
        destination_path: Seq::empty(),
        destination_hash: Seq::empty(),
        status: JobStatus::Pending,
    }
}

/// A file found by the scan, with its content digest.
pub struct ScannedFile {
    pub path: String,
    pub content: ContentDigest,
}

/// The batch: roots, rules (extension to command template), and jobs in
/// scan order.
pub struct BatchJob {
    source_dir: String,
    destination_dir: String,
    rules: Vec<(String, String)>,
    jobs: Vec<Job>,
}

/// A batch as values.
pub struct BatchView {
    pub source_dir: Seq<char>,
    pub destination_dir: Seq<char>,
    pub rules: Seq<(Seq<char>, Seq<char>)>,
    pub jobs: Seq<JobView>,
}

pub open spec fn rule_views(rules: Seq<(String, String)>) -> Seq<(Seq<char>, Seq<char>)> {
    rules.map_values(|r: (String, String)| (r.0@, r.1@))
}

pub open spec fn job_views(jobs: Seq<Job>) -> Seq<JobView> {
    jobs.map_values(|j: Job| j@)
}

impl View for BatchJob {
    type V = BatchView;

    closed spec fn view(&self) -> BatchView {
        BatchView {
            source_dir: self.source_dir@,
            destination_dir: self.destination_dir@,
            rules: rule_views(self.rules@),
            jobs: job_views(self.jobs@),
        }
    }
}

/// No extension has two rules.
pub open spec fn keys_unique(rules: Seq<(Seq<char>, Seq<char>)>) -> bool {
    forall|a: int, b: int| 0 <= a < b < rules.len() ==> rules[a].0 != rules[b].0
}

/// The command template for extension `ext`, if a rule has it.
pub open spec fn rule_for(rules: Seq<(Seq<char>, Seq<char>)>, ext: Seq<char>) -> Option<Seq<char>> {
    if exists|k: int| 0 <= k < rules.len() && rules[k].0 == ext {
        Some(rules[choose|k: int| 0 <= k < rules.len() && rules[k].0 == ext].1)
    } else {
        None
    }
}

/// Indices among the first `n` jobs that are pending, in order.
pub open spec fn pending_indices(jobs: Seq<JobView>, n: int) -> Seq<usize>
    decreases n,
{
    if n <= 0 {
        Seq::empty()
    } else {
        let prior = pending_indices(jobs, n - 1);
        if jobs[n - 1].status == JobStatus::Pending {
            prior.push((n - 1) as usize)
        } else {
            prior
        }
    }
}

/// Why a job could not be converted.
#[derive(Debug)]
pub enum JobError {
    /// The source is gone, or is no longer a regular file.
    Missing,
    /// The source path does not lie under the batch's source directory.
    OutsideSource,
    /// The source file name has no extension.
    NoExtension,
    /// No rule has the source file's extension.
    NoRule(String),
}

/// A job error as values.
pub enum JobFailure {
    Missing,
    OutsideSource,
    NoExtension,
    NoRule(Seq<char>),
}

impl View for JobError {
    type V = JobFailure;

    open spec fn view(&self) -> JobFailure {
        match self {
            JobError::Missing => JobFailure::Missing,
            JobError::OutsideSource => JobFailure::OutsideSource,
            JobError::NoExtension => JobFailure::NoExtension,
            JobError::NoRule(e) => JobFailure::NoRule(e@),
        }
    }
}

/// What to run for one job: the converter's argument list (program first)
/// and where its output goes.
pub struct Invocation {
    pub args: Vec<String>,
    pub destination: String,
}

/// An invocation as values.
pub struct InvocationView {
    pub args: Seq<Seq<char>>,
    pub destination: Seq<char>,
}

impl View for Invocation {
    type V = InvocationView;

    open spec fn view(&self) -> InvocationView {
        InvocationView { args: texts(self.args@), destination: self.destination@ }
    }
}

pub open spec fn plan_view(r: Result<Invocation, JobError>) -> Result<InvocationView, JobFailure> {
    match r {
        Ok(v) => Ok(v@),
        Err(e) => Err(e@),
    }
}

/// What job `i` of batch `b` comes to when its source is (or is not) a
/// regular file on disk: the checks in order, then the resolved command and
/// the mirrored destination.
pub open spec fn plan(b: BatchView, i: int, is_file: bool) -> Result<InvocationView, JobFailure> {
    let p = b.jobs[i].source_path;
    if !is_file {
        Err(JobFailure::Missing)
    } else {
        match relative_to(p, b.source_dir) {
            None => Err(JobFailure::OutsideSource),
            Some(rel) => match extension_of(p) {
                None => Err(JobFailure::NoExtension),
                Some(ext) => match rule_for(b.rules, ext) {
                    None => Err(JobFailure::NoRule(ext)),
                    Some(cmd) => Ok(
                        InvocationView { args: resolve(cmd, p), destination: join_path(b.destination_dir, rel) },
                    ),
                },
            },
        }
    }
}

/// Job `j` after its outcome: `Done` with its destination when the plan held
/// and the converter succeeded, `Error` otherwise.
pub open spec fn settled(j: JobView, outcome: Result<InvocationView, JobFailure>, converted: bool) -> JobView {
    match outcome {
        Ok(inv) => if converted {
            JobView { destination_path: inv.destination, status: JobStatus::Done, ..j }
        } else {
            JobView { status: JobStatus::Error, ..j }
        },
        Err(_) => JobView { status: JobStatus::Error, ..j },
    }
}

/// Batch `b` after job `i`'s outcome is recorded. Only a pending job moves;
/// `Done` and `Error` are final.
pub open spec fn finished(
    b: BatchView,
    i: int,
    outcome: Result<InvocationView, JobFailure>,
    converted: bool,
) -> BatchView {
    if b.jobs[i].status == JobStatus::Pending {
        BatchView { jobs: b.jobs.update(i, settled(b.jobs[i], outcome, converted)), ..b }
    } else {
        b
    }
}

/// The batch's own pending snapshot.
pub open spec fn pending_of(b: BatchView) -> Seq<usize> {
    pending_indices(b.jobs, b.jobs.len() as int)
}

impl BatchJob {
    /// Well-formed: the rule table has one entry per extension.
    pub open spec fn wf(&self) -> bool {
        keys_unique(self@.rules)
    }

    /// An empty batch with the default rule.
    pub fn new(source_dir: String, destination_dir: String) -> (b: BatchJob)
        ensures
            b.wf(),
            b@.source_dir == source_dir@,
            b@.destination_dir == destination_dir@,
            b@.rules == seq![(DEFAULT_EXTENSION@, DEFAULT_COMMAND@)],
            b@.jobs == Seq::<JobView>::empty(),
    {
        let mut rules: Vec<(String, String)> = Vec::new();
        rules.push((String::from_str(DEFAULT_EXTENSION), String::from_str(DEFAULT_COMMAND)));
        let b = BatchJob { source_dir, destination_dir, rules, jobs: Vec::new() };
        assert(b@.rules =~= seq![(DEFAULT_EXTENSION@, DEFAULT_COMMAND@)]);
        assert(b@.jobs =~= Seq::<JobView>::empty());
        b
    }

    /// Appends one pending job per scanned file, in scan order, with the
    /// file's content digest as its source hash.
    pub fn init(&mut self, scanned: &Vec<ScannedFile>)
        ensures
            final(self)@.source_dir == old(self)@.source_dir,
            final(self)@.destination_dir == old(self)@.destination_dir,
            final(self)@.rules == old(self)@.rules,
            final(self)@.jobs == old(self)@.jobs + scanned@.map_values(
                |f: ScannedFile| pending_job(f.path@, sha256_hex(f.content@)),
            ),
    {
        let ghost start = self@;
        let ghost added = scanned@.map_values(
            |f: ScannedFile| pending_job(f.path@, sha256_hex(f.content@)),
        );
        let mut i: usize = 0;
        while i < scanned.len()
            invariant
                i <= scanned.len(),
                added == scanned@.map_values(
                    |f: ScannedFile| pending_job(f.path@, sha256_hex(f.content@)),
                ),
                self@.source_dir == start.source_dir,
                self@.destination_dir == start.destination_dir,
                self@.rules == start.rules,
                self@.jobs == start.jobs + added.subrange(0, i as int),
            decreases scanned.len() - i,
        {
            let file = &scanned[i];
            let job = Job {
                source_path: file.path.clone(),
                source_sha256sum: file.content.hex(),
                destination_path: String::new(),
                destination_sha256sum: String::new(),
                status: JobStatus::Pending,
            };
            let ghost before = self.jobs@;
            self.jobs.push(job);
            assert(job_views(self.jobs@) =~= job_views(before).push(job@));
            assert(job@ == added[i as int]);
            assert(self@.jobs =~= start.jobs + added.subrange(0, i + 1));
            i = i + 1;
        }
        assert(added.subrange(0, i as int) =~= added);
    }

    /// Index of the rule for extension `ext`, if there is one.
    fn find_rule(&self, ext: &String) -> (r: Option<usize>)
        requires
            self.wf(),
        ensures
            match r {
                Some(k) => k < self@.rules.len() && rule_for(self@.rules, ext@) == Some(
                    self@.rules[k as int].1,
                ),
                None => rule_for(self@.rules, ext@) is None,
            },
    {
        let mut k: usize = 0;
        while k < self.rules.len()
            invariant
                k <= self.rules.len(),
                self.wf(),
                self@.rules.len() == self.rules.len(),
                forall|m: int| 0 <= m < k ==> self@.rules[m].0 != ext@,
            decreases self.rules.len() - k,
        {
            assert(self@.rules[k as int].0 == self.rules@[k as int].0@);
            if self.rules[k].0 == *ext {
                proof {
                    let rules = self@.rules;
                    assert(0 <= k < rules.len() && rules[k as int].0 == ext@);
                    assert(exists|m: int| 0 <= m < rules.len() && rules[m].0 == ext@);
                    let c = choose|m: int| 0 <= m < rules.len() && rules[m].0 == ext@;
                    assert(c == k as int) by {
                        if c < k {
                        } else if c > k {
                            assert(rules[k as int].0 != rules[c].0);
                        }
                    }
                }
                return Some(k);
            }
            k = k + 1;
        }
        None
    }

    /// Decides what converting job `index` takes, given whether its source
    /// is a regular file on disk now.
    pub fn run_job(&self, index: usize, is_file: bool) -> (r: Result<Invocation, JobError>)
        requires
            self.wf(),
            index < self@.jobs.len(),
        ensures
            plan_view(r) == plan(self@, index as int, is_file),
    {
        assert(self@.jobs[index as int] == self.jobs@[index as int]@);
        let path = self.jobs[index].source_path.as_str();
        if !is_file {
            return Err(JobError::Missing);
        }
        let rel = match relative_path(path, self.source_dir.as_str()) {
            Some(rel) => rel,
            None => {
                return Err(JobError::OutsideSource);
            },
        };
        let ext = match file_extension(path) {
            Some(ext) => ext,
            None => {
                return Err(JobError::NoExtension);
            },
        };
        let k = match self.find_rule(&ext) {
            Some(k) => k,
            None => {
                return Err(JobError::NoRule(ext));
            },
        };
        assert(self@.rules[k as int].1 == self.rules@[k as int].1@);
        let args = resolve_args(self.rules[k].1.as_str(), path);
        let destination = join(self.destination_dir.as_str(), rel.as_str());
        Ok(Invocation { args, destination })
    }

    /// Records how job `index` went: its plan, and whether the converter
    /// succeeded. A job that is no longer pending keeps its status.
    pub fn finish_job(&mut self, index: usize, outcome: &Result<Invocation, JobError>, converted: bool)
        requires
            index < old(self)@.jobs.len(),
        ensures
            final(self)@ == finished(old(self)@, index as int, plan_view(*outcome), converted),
            final(self).wf() == old(self).wf(),
    {
        let ghost start = self@;
        assert(self@.jobs[index as int] == self.jobs@[index as int]@);
        if self.jobs[index].status != JobStatus::Pending {
            return;
        }
        let old_job = &self.jobs[index];
        let (destination, status) = match outcome {
            Ok(inv) => if converted {
                (inv.destination.clone(), JobStatus::Done)
            } else {
                (old_job.destination_path.clone(), JobStatus::Error)
            },
            Err(_) => (old_job.destination_path.clone(), JobStatus::Error),
        };
        let job = Job {
            source_path: old_job.source_path.clone(),
            source_sha256sum: old_job.source_sha256sum.clone(),
            destination_path: destination,
            destination_sha256sum: old_job.destination_sha256sum.clone(),
            status,
        };
        let ghost before = self.jobs@;
        self.jobs.set(index, job);
        assert(job_views(self.jobs@) =~= job_views(before).update(index as int, job@));
        assert(self@ =~= finished(start, index as int, plan_view(*outcome), converted));
    }

    /// Indices of the jobs that are pending now, in list order.
    pub fn pending_jobs(&self) -> (r: Vec<usize>)
        ensures
            r@ == pending_of(self@),
    {
        let mut r: Vec<usize> = Vec::new();
        let mut i: usize = 0;
        while i < self.jobs.len()
            invariant
                i <= self.jobs.len(),
                self@.jobs.len() == self.jobs.len(),
                r@ == pending_indices(self@.jobs, i as int),
            decreases self.jobs.len() - i,
        {
            assert(self@.jobs[i as int] == self.jobs@[i as int]@);
            if self.jobs[i].status == JobStatus::Pending {
                r.push(i);
            }
            i = i + 1;
        }
        r
    }

    /// A batch with the given parts, as read back from a batch definition;
    /// none when two rules share an extension.
    pub fn from_parts(
        source_dir: String,
        destination_dir: String,
        rules: Vec<(String, String)>,
        jobs: Vec<Job>,
    ) -> (r: Option<BatchJob>)
        ensures
            r is Some <==> keys_unique(rule_views(rules@)),
            r is Some ==> r->Some_0.wf() && r->Some_0@ == (BatchView {
                source_dir: source_dir@,
                destination_dir: destination_dir@,
                rules: rule_views(rules@),
                jobs: job_views(jobs@),
            }),
    {
        if rules_unique(&rules) {
            Some(BatchJob { source_dir, destination_dir, rules, jobs })
        } else {
            None
        }
    }

    pub fn source_dir(&self) -> (r: &String)
        ensures
            r@ == self@.source_dir,
    {
        &self.source_dir
    }

    pub fn destination_dir(&self) -> (r: &String)
        ensures
            r@ == self@.destination_dir,
    {
        &self.destination_dir
    }

    pub fn rules(&self) -> (r: &Vec<(String, String)>)
        ensures
            rule_views(r@) == self@.rules,
    {
        &self.rules
    }

    pub fn jobs(&self) -> (r: &Vec<Job>)
        ensures
            job_views(r@) == self@.jobs,
    {
        &self.jobs
    }
}

/// A pending job whose source is a file under the source directory, with an
/// extension that has a rule, ends `Done` once the converter succeeds, with
/// its destination at the destination directory joined with its path
/// relative to the source directory.
pub proof fn lemma_matching_rule_converts(b: BatchView, i: int)
    requires
        0 <= i < b.jobs.len(),
        b.jobs[i].status == JobStatus::Pending,
        relative_to(b.jobs[i].source_path, b.source_dir) is Some,
        extension_of(b.jobs[i].source_path) is Some,
        rule_for(b.rules, extension_of(b.jobs[i].source_path)->Some_0) is Some,
    ensures
        ({
            let after = finished(b, i, plan(b, i, true), true);
            &&& after.jobs[i].status == JobStatus::Done
            &&& after.jobs[i].destination_path == join_path(
                b.destination_dir,
                relative_to(b.jobs[i].source_path, b.source_dir)->Some_0,
            )
        }),
{
}

/// A pending job whose extension has no rule ends `Error`, whatever the
/// disk and the converter say; every other job is left as it was and is
/// planned exactly as before.
pub proof fn lemma_unmatched_extension_fails(b: BatchView, i: int, is_file: bool, converted: bool)
    requires
        0 <= i < b.jobs.len(),
        b.jobs[i].status == JobStatus::Pending,
        extension_of(b.jobs[i].source_path) is Some,
        rule_for(b.rules, extension_of(b.jobs[i].source_path)->Some_0) is None,
    ensures
        ({
            let after = finished(b, i, plan(b, i, is_file), converted);
            &&& plan(b, i, is_file) is Err
            &&& after.jobs[i].status == JobStatus::Error
            &&& after.jobs.len() == b.jobs.len()
            &&& forall|j: int| 0 <= j < b.jobs.len() && j != i ==> after.jobs[j] == b.jobs[j]
            &&& forall|j: int, f: bool|
                0 <= j < b.jobs.len() && j != i ==> plan(after, j, f) == plan(b, j, f)
        }),
{
}

proof fn lemma_pending_prefix(a: Seq<JobView>, b: Seq<JobView>, n: int)
    requires
        0 <= n <= a.len(),
        n <= b.len(),
        a.subrange(0, n) == b.subrange(0, n),
    ensures
        pending_indices(a, n) == pending_indices(b, n),
    decreases n,
{
    if n > 0 {
        assert(a[n - 1] == a.subrange(0, n)[n - 1]);
        assert(b[n - 1] == b.subrange(0, n)[n - 1]);
        assert(a.subrange(0, n - 1) == a.subrange(0, n).subrange(0, n - 1));
        assert(b.subrange(0, n - 1) == b.subrange(0, n).subrange(0, n - 1));
        lemma_pending_prefix(a, b, n - 1);
    }
}

/// Jobs appended to a batch all pending: the pending snapshot grows by
/// exactly their indices, one per job, in order, after the earlier ones.
pub proof fn lemma_scanned_jobs_are_pending(b: BatchView, added: Seq<JobView>)
    requires
        forall|k: int| 0 <= k < added.len() ==> #[trigger] added[k].status == JobStatus::Pending,
        b.jobs.len() + added.len() <= usize::MAX + 1,
    ensures
        pending_of(BatchView { jobs: b.jobs + added, ..b }) == pending_of(b) + Seq::new(
            added.len(),
            |k: int| (b.jobs.len() + k) as usize,
        ),
    decreases added.len(),
{
    let all = b.jobs + added;
    let n = b.jobs.len() as int;
    if added.len() == 0 {
        assert(all =~= b.jobs);
        assert(Seq::new(0, |k: int| (n + k) as usize) =~= Seq::<usize>::empty());
    } else {
        let fewer = added.drop_last();
        assert forall|k: int| 0 <= k < fewer.len() implies #[trigger] fewer[k].status
            == JobStatus::Pending by {
            assert(fewer[k] == added[k]);
        }
        lemma_scanned_jobs_are_pending(b, fewer);
        let shorter = b.jobs + fewer;
        let m = all.len() - 1;
        assert(all.subrange(0, m) =~= shorter.subrange(0, m));
        lemma_pending_prefix(all, shorter, m);
        assert(shorter.subrange(0, m) =~= shorter);
        assert(all[m] == added[added.len() - 1]);
        assert(Seq::new(added.len(), |k: int| (n + k) as usize) =~= Seq::new(
            fewer.len(),
            |k: int| (n + k) as usize,
        ).push((n + fewer.len()) as usize));
    }
}

proof fn lemma_none_pending_below(jobs: Seq<JobView>, n: int)
    requires
        n <= jobs.len(),
        forall|j: int| 0 <= j < n ==> jobs[j].status != JobStatus::Pending,
    ensures
        pending_indices(jobs, n) == Seq::<usize>::empty(),
    decreases n,
{
    if n > 0 {
        lemma_none_pending_below(jobs, n - 1);
    }
}

/// With no job pending, a run has nothing to invoke, and recording any
/// outcome for any job changes nothing.
pub proof fn lemma_nothing_pending_is_idle(b: BatchView)
    requires
        forall|j: int| 0 <= j < b.jobs.len() ==> b.jobs[j].status != JobStatus::Pending,
    ensures
        pending_of(b) == Seq::<usize>::empty(),
        forall|i: int, outcome: Result<InvocationView, JobFailure>, converted: bool|
            0 <= i < b.jobs.len() ==> finished(b, i, outcome, converted) == b,
{
    lemma_none_pending_below(b.jobs, b.jobs.len() as int);
}

} // verus!
