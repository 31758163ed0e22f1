//! The conversion queue: the command line of each job, the reading of what
//! the tools print while they work, and the rules that decide what happens
//! to a job and its files. Running the processes, timing and the events sent
//! to the interface are left to the caller.
use vstd::prelude::*;
use crate::settings::Settings;
use crate::text::{chars_of, dec, eq_str, join, join_strings, push_arg, push_str, starts_with};
use crate::text::{str_starts_with, views, with_dec};

verus! {

// ------------------------------------------------------------------ jobs

/// Where a job stands.
#[derive(PartialEq, Eq, Structural, Clone, Copy, Debug)]
pub enum JobStatus {
    Queued,
    Running,
    Done,
    Error,
    Canceled,
}

/// The name a status has in the interface.
pub open spec fn status_name(s: JobStatus) -> Seq<char> {
    match s {
        JobStatus::Queued => "queued"@,
        JobStatus::Running => "running"@,
        JobStatus::Done => "done"@,
        JobStatus::Error => "error"@,
        JobStatus::Canceled => "canceled"@,
    }
}

impl JobStatus {
    /// The name of the status in the interface.
    pub fn as_str(&self) -> (r: &'static str)
        ensures
            r@ == status_name(*self),
    {
        match self {
            JobStatus::Queued => "queued",
            JobStatus::Running => "running",
            JobStatus::Done => "done",
            JobStatus::Error => "error",
            JobStatus::Canceled => "canceled",
        }
    }

    /// The status with a given name.
    pub fn from_name(name: &str) -> (r: Option<JobStatus>)
        ensures
            r matches Some(s) ==> status_name(s) == name@,
            r is None ==> forall|s: JobStatus| status_name(s) != name@,
    {
        if eq_str(name, "queued") {
            Some(JobStatus::Queued)
        } else if eq_str(name, "running") {
            Some(JobStatus::Running)
        } else if eq_str(name, "done") {
            Some(JobStatus::Done)
        } else if eq_str(name, "error") {
            Some(JobStatus::Error)
        } else if eq_str(name, "canceled") {
            Some(JobStatus::Canceled)
        } else {
            assert forall|s: JobStatus| status_name(s) != name@ by {
                match s {
                    JobStatus::Queued => {},
                    JobStatus::Running => {},
                    JobStatus::Done => {},
                    JobStatus::Error => {},
                    JobStatus::Canceled => {},
                }
            }
            None
        }
    }
}

/// What a job asks for: the part of a job that decides its command line
/// and what is done with its files.
#[derive(Debug)]
pub struct JobParams {
    /// Tool that runs the job: chdman | nsz | 4nxci | maxcso | ...
    pub tool: String,
    /// Action within that tool
    pub mode: String,
    pub input: String,
    pub output: String,
    /// Second output (the .bin that goes with a .cue when extracting)
    pub output_extra: Option<String>,
    pub codecs: Vec<String>,
    pub hunk_size: Option<u32>,
    pub unit_size: Option<u32>,
}

/// Checking modes produce no file, so there is nothing to clean up.
pub fn is_verify(mode: &str) -> (r: bool)
    ensures
        r == (mode@ == "verify"@),
{
    eq_str(mode, "verify")
}

/// Tools that produce a folder instead of a single file.
pub fn writes_directory(tool: &str) -> (r: bool)
    ensures
        r == (tool@ == "iso2god"@),
{
    eq_str(tool, "iso2god")
}

/// Whether a job's output is a folder.
pub open spec fn writes_directory_spec(tool: Seq<char>, mode: Seq<char>) -> bool {
    tool == "iso2god"@ || mode == "ps3extract"@ || mode == "iso2folder"@
}

/// Whether a job's output is a folder.
pub fn mode_writes_directory(job: &JobParams) -> (r: bool)
    ensures
        r == writes_directory_spec(job.tool@, job.mode@),
{
    writes_directory(job.tool.as_str()) || eq_str(job.mode.as_str(), "ps3extract") || eq_str(
        job.mode.as_str(),
        "iso2folder",
    )
}

// ------------------------------------------------------------------ commands

/// Output flags of chdman: all but `verify` write a file, with the second
/// output of a `.cue` extraction and `-f` when overwriting is allowed.
pub open spec fn chdman_output_flags(j: JobParams, s: Settings) -> Seq<Seq<char>> {
    if j.mode@ != "verify"@ {
        seq!["-o"@, j.output@] + (match j.output_extra {
            Some(e) => seq!["-ob"@, e@],
            None => seq![],
        }) + (if s.overwrite {
            seq!["-f"@]
        } else {
            seq![]
        })
    } else {
        seq![]
    }
}

/// Compression flags of chdman, for the `create*` modes only: the codecs,
/// the hunk size, for `createraw` a unit size (512 unless one is given),
/// and the thread count.
pub open spec fn chdman_create_flags(j: JobParams, s: Settings) -> Seq<Seq<char>> {
    if starts_with(j.mode@, "create"@) {
        (if j.codecs.len() > 0 {
            seq!["-c"@, join(views(j.codecs@), ","@)]
        } else {
            seq![]
        }) + (match j.hunk_size {
            Some(hs) => seq!["-hs"@, dec(hs as nat)],
            None => seq![],
        }) + (if j.mode@ == "createraw"@ {
            seq![
                "-us"@,
                dec(
                    match j.unit_size {
                        Some(u) => u as nat,
                        None => 512,
                    },
                ),
            ]
        } else {
            seq![]
        }) + (if s.threads > 0 {
            seq!["-np"@, dec(s.threads as nat)]
        } else {
            seq![]
        })
    } else {
        seq![]
    }
}

/// `chdman <mode> -i <in> [-o <out> [-ob <extra>] [-f]] [-c codecs] [-hs N]
/// [-us N] [-np N]`
pub open spec fn chdman_args_spec(j: JobParams, s: Settings) -> Seq<Seq<char>> {
    seq![j.mode@, "-i"@, j.input@] + chdman_output_flags(j, s) + chdman_create_flags(j, s)
}

fn push_output_flags(a: &mut Vec<String>, job: &JobParams, s: &Settings)
    ensures
        views(final(a)@) == views(old(a)@) + chdman_output_flags(*job, *s),
{
    let ghost before = views(a@);
    if !eq_str(job.mode.as_str(), "verify") {
        push_str(a, "-o");
        push_str(a, job.output.as_str());
        if let Some(extra) = &job.output_extra {
            push_str(a, "-ob");
            push_str(a, extra.as_str());
        }
        if s.overwrite {
            push_str(a, "-f");
        }
    }
    assert(views(a@) =~= before + chdman_output_flags(*job, *s));
}

fn push_number(a: &mut Vec<String>, flag: &str, n: u32)
    ensures
        views(final(a)@) == views(old(a)@) + seq![flag@, dec(n as nat)],
{
    let ghost before = views(a@);
    push_str(a, flag);
    push_arg(a, with_dec("", n as u64));
    assert(""@ + dec(n as nat) =~= dec(n as nat)) by {
        reveal_strlit("");
    }
    assert(views(a@) =~= before + seq![flag@, dec(n as nat)]);
}

fn push_create_flags(a: &mut Vec<String>, job: &JobParams, s: &Settings)
    ensures
        views(final(a)@) == views(old(a)@) + chdman_create_flags(*job, *s),
{
    let ghost before = views(a@);
    if str_starts_with(job.mode.as_str(), "create") {
        if job.codecs.len() > 0 {
            push_str(a, "-c");
            push_arg(a, join_strings(&job.codecs, ","));
        }
        if let Some(hs) = job.hunk_size {
            push_number(a, "-hs", hs);
        }
        if eq_str(job.mode.as_str(), "createraw") {
            let us: u32 = match job.unit_size {
                Some(u) => u,
                None => 512,
            };
            push_number(a, "-us", us);
        }
        if s.threads > 0 {
            push_number(a, "-np", s.threads);
        }
    }
    assert(views(a@) =~= before + chdman_create_flags(*job, *s));
}

/// Command line of chdman for a job.
pub fn chdman_args(job: &JobParams, s: &Settings) -> (r: Vec<String>)
    ensures
        views(r@) == chdman_args_spec(*job, *s),
{
    let mut a: Vec<String> = Vec::new();
    push_str(&mut a, job.mode.as_str());
    push_str(&mut a, "-i");
    push_str(&mut a, job.input.as_str());
    push_output_flags(&mut a, job, s);
    push_create_flags(&mut a, job, s);
    assert(views(a@) =~= chdman_args_spec(*job, *s));
    a
}

/// Whether this library builds a tool's command line: chdman (the
/// default), iso2god, extract-xiso and maxcso. nsz, 4nxci, z3ds, 3dsconv,
/// wit, DolphinTool and ps3iso-utils are not supported: the library has no
/// argument builders for them, so jobs for those tools cannot run.
pub open spec fn builds_args_for(tool: Seq<char>) -> bool {
    !(tool == "nsz"@ || tool == "4nxci"@ || tool == "z3ds"@ || tool == "3dsconv"@ || tool
        == "wit"@ || tool == "dolphintool"@ || tool == "ps3iso"@)
}

/// The command line of a job, by the tool that runs it.
pub open spec fn build_args_spec(j: JobParams, s: Settings) -> Option<Seq<Seq<char>>> {
    let t = j.tool@;
    if !builds_args_for(t) {
        None
    } else if t == "iso2god"@ {
        Some(crate::xbox360::args_spec(j.input@, j.output@, s.xbox_trim, s.threads))
    } else if t == "xiso"@ {
        if j.mode@ == "folder2iso"@ {
            Some(seq!["-c"@, j.input@, j.output@])
        } else {
            Some(crate::xbox360::extract_args_spec(j.input@, j.output@, s.xbox_skip_update))
        }
    } else if t == "maxcso"@ {
        Some(crate::psp::args_spec(j.mode@, j.input@, j.output@, s.preset@, s.threads))
    } else {
        Some(chdman_args_spec(j, s))
    }
}

/// The command line of a job, chosen by the tool that runs it; `None` for
/// the tools this library does not support (see `builds_args_for`).
pub fn build_args(job: &JobParams, s: &Settings) -> (r: Option<Vec<String>>)
    ensures
        match r {
            Some(a) => build_args_spec(*job, *s) == Some(views(a@)),
            None => build_args_spec(*job, *s) is None,
        },
{
    let t = job.tool.as_str();
    if eq_str(t, "nsz") || eq_str(t, "4nxci") || eq_str(t, "z3ds") || eq_str(t, "3dsconv")
        || eq_str(t, "wit") || eq_str(t, "dolphintool") || eq_str(t, "ps3iso") {
        None
    } else if eq_str(t, "iso2god") {
        Some(crate::xbox360::args(job.input.as_str(), job.output.as_str(), s))
    } else if eq_str(t, "xiso") {
        if eq_str(job.mode.as_str(), "folder2iso") {
            Some(crate::xbox360::build_args(job.input.as_str(), job.output.as_str()))
        } else {
            Some(crate::xbox360::extract_args(job.input.as_str(), job.output.as_str(), s))
        }
    } else if eq_str(t, "maxcso") {
        Some(crate::psp::args(job.mode.as_str(), job.input.as_str(), job.output.as_str(), s))
    } else {
        Some(chdman_args(job, s))
    }
}

/// `chdman verify -i <file>`, run after creating when the settings ask.
pub fn verify_args(output: &str) -> (r: Vec<String>)
    ensures
        views(r@) == seq!["verify"@, "-i"@, output@],
{
    let mut a: Vec<String> = Vec::new();
    push_str(&mut a, "verify");
    push_str(&mut a, "-i");
    push_str(&mut a, output);
    assert(views(a@) =~= seq!["verify"@, "-i"@, output@]);
    a
}

// ------------------------------------------------------------------ queue

/// How many jobs are running.
pub open spec fn running_count(st: Seq<JobStatus>) -> nat
    decreases st.len(),
{
    if st.len() == 0 {
        0
    } else {
        running_count(st.drop_last()) + (if st.last() == JobStatus::Running {
            1nat
        } else {
            0nat
        })
    }
}

/// First queued job at or after `i`.
pub open spec fn first_queued(st: Seq<JobStatus>, i: int) -> Option<int>
    decreases st.len() - i,
{
    if i < 0 || i >= st.len() {
        None
    } else if st[i] == JobStatus::Queued {
        Some(i)
    } else {
        first_queued(st, i + 1)
    }
}

/// The parallelism limit: at least one job runs.
pub open spec fn limit_of(parallel: usize) -> nat {
    if parallel == 0 {
        1
    } else {
        parallel as nat
    }
}

/// The job to start next: the first queued one, provided fewer jobs than the
/// limit are running.
pub open spec fn pick_next_spec(st: Seq<JobStatus>, parallel: usize) -> Option<int> {
    if running_count(st) < limit_of(parallel) {
        first_queued(st, 0)
    } else {
        None
    }
}

/// Which job the queue starts next, given the status of every job in queue
/// order and the number of jobs allowed to run at once.
pub fn pick_next(statuses: &Vec<JobStatus>, parallel: usize) -> (r: Option<usize>)
    ensures
        match r {
            Some(i) => pick_next_spec(statuses@, parallel) == Some(i as int),
            None => pick_next_spec(statuses@, parallel) is None,
        },
{
    let limit: usize = if parallel == 0 {
        1
    } else {
        parallel
    };
    let mut running: usize = 0;
    let mut next: Option<usize> = None;
    let mut i: usize = 0;
    assert(statuses@.take(0) =~= Seq::<JobStatus>::empty());
    while i < statuses.len()
        invariant
            i <= statuses.len(),
            running == running_count(statuses@.take(i as int)),
            running <= i,
            match next {
                Some(k) => first_queued(statuses@, 0) == Some(k as int),
                None => first_queued(statuses@, 0) == first_queued(statuses@, i as int),
            },
        decreases statuses.len() - i,
    {
        assert(statuses@.take(i + 1).drop_last() =~= statuses@.take(i as int));
        if statuses[i] == JobStatus::Running {
            running += 1;
        }
        if next.is_none() && statuses[i] == JobStatus::Queued {
            next = Some(i);
        }
        i += 1;
    }
    assert(statuses@.take(i as int) =~= statuses@);
    if running < limit {
        next
    } else {
        None
    }
}

proof fn lemma_running_count_update(st: Seq<JobStatus>, i: int)
    requires
        0 <= i < st.len(),
        st[i] == JobStatus::Queued,
    ensures
        running_count(st.update(i, JobStatus::Running)) == running_count(st) + 1,
    decreases st.len(),
{
    let u = st.update(i, JobStatus::Running);
    if i < st.len() - 1 {
        lemma_running_count_update(st.drop_last(), i);
        assert(u.drop_last() =~= st.drop_last().update(i, JobStatus::Running));
    } else {
        assert(u.drop_last() =~= st.drop_last());
    }
}

/// Starting the job that the queue picks never lets more jobs run than the
/// limit allows: the picked job is queued, and once it is marked running
/// the running count is one more and still within the limit.
pub proof fn lemma_pick_respects_limit(st: Seq<JobStatus>, parallel: usize)
    ensures
        pick_next_spec(st, parallel) matches Some(i) ==> {
            &&& 0 <= i < st.len()
            &&& st[i] == JobStatus::Queued
            &&& forall|j: int| 0 <= j < i ==> st[j] != JobStatus::Queued
            &&& running_count(st.update(i, JobStatus::Running)) == running_count(st) + 1
            &&& running_count(st.update(i, JobStatus::Running)) <= limit_of(parallel)
        },
        pick_next_spec(st, parallel) is None ==> (running_count(st) >= limit_of(parallel)
            || forall|j: int| 0 <= j < st.len() ==> st[j] != JobStatus::Queued),
{
    lemma_first_queued(st, 0);
    if let Some(i) = pick_next_spec(st, parallel) {
        lemma_running_count_update(st, i);
    }
}

proof fn lemma_first_queued(st: Seq<JobStatus>, from: int)
    requires
        0 <= from,
    ensures
        first_queued(st, from) matches Some(i) ==> from <= i < st.len() && st[i]
            == JobStatus::Queued && forall|j: int| from <= j < i ==> st[j] != JobStatus::Queued,
        first_queued(st, from) is None ==> forall|j: int|
            from <= j < st.len() ==> st[j] != JobStatus::Queued,
    decreases st.len() - from,
{
    if from < st.len() && st[from] != JobStatus::Queued {
        lemma_first_queued(st, from + 1);
    }
}

/// What cancelling does to a job that has no process yet: a queued job is
/// cancelled, any other keeps its status.
pub fn cancel_status(s: JobStatus) -> (r: JobStatus)
    ensures
        r == (if s == JobStatus::Queued {
            JobStatus::Canceled
        } else {
            s
        }),
{
    if s == JobStatus::Queued {
        JobStatus::Canceled
    } else {
        s
    }
}

// ------------------------------------------------------------------ logs

/// A job keeps at most this many log lines.
pub open spec fn log_limit() -> nat {
    400
}

/// The log after one line is added: the oldest line goes once the limit
/// is passed.
pub open spec fn push_log_spec(log: Seq<Seq<char>>, line: Seq<char>) -> Seq<Seq<char>> {
    let l = log.push(line);
    if l.len() > log_limit() {
        l.drop_first()
    } else {
        l
    }
}

/// Adds a line to a job's log.
pub fn push_log(log: &mut Vec<String>, line: String)
    ensures
        views(final(log)@) == push_log_spec(views(old(log)@), line@),
{
    push_arg(log, line);
    if log.len() > 400 {
        let ghost before = views(log@);
        log.remove(0);
        assert(views(log@) =~= before.drop_first());
    }
}

/// The log never grows past its limit, and it always ends with the line
/// just added.
pub proof fn lemma_push_log_bounded(log: Seq<Seq<char>>, line: Seq<char>)
    requires
        log.len() <= log_limit(),
    ensures
        push_log_spec(log, line).len() <= log_limit(),
        push_log_spec(log, line).last() == line,
        push_log_spec(log, line).len() > 0,
{
}

/// Whether a log line reports a failure ("error", "unable" or "fatal", in
/// any ASCII case; no character outside ASCII lower-cases to a letter of
/// these words).
pub open spec fn is_failure_line(l: Seq<char>) -> bool {
    let low = crate::text::lower(l);
    crate::text::contains(low, "error"@) || crate::text::contains(low, "unable"@)
        || crate::text::contains(low, "fatal"@)
}

/// The last of the first `n` log lines that reports a failure.
pub open spec fn last_failure_upto(log: Seq<Seq<char>>, n: int) -> Option<Seq<char>>
    decreases n,
{
    if n <= 0 || n > log.len() {
        None
    } else if is_failure_line(log[n - 1]) {
        Some(log[n - 1])
    } else {
        last_failure_upto(log, n - 1)
    }
}

/// The message of a failed job: the last log line that reports a failure,
/// or a general one.
pub open spec fn failure_message_spec(log: Seq<Seq<char>>) -> Seq<char> {
    match last_failure_upto(log, log.len() as int) {
        Some(l) => l,
        None => "chdman termino con error"@,
    }
}

fn is_failure_line_exec(l: &str) -> (r: bool)
    ensures
        r == is_failure_line(l@),
{
    let low = crate::text::lower_chars(&chars_of(l));
    crate::text::contains_exec(&low, &chars_of("error")) || crate::text::contains_exec(
        &low,
        &chars_of("unable"),
    ) || crate::text::contains_exec(&low, &chars_of("fatal"))
}

/// The message of a failed job, read from its log.
pub fn failure_message(log: &Vec<String>) -> (r: String)
    ensures
        r@ == failure_message_spec(views(log@)),
{
    let ghost lv = views(log@);
    let mut n = log.len();
    while n > 0
        invariant
            n <= log.len(),
            lv == views(log@),
            lv.len() == log.len(),
            last_failure_upto(lv, log.len() as int) == last_failure_upto(lv, n as int),
        decreases n,
    {
        assert(lv[n - 1] == log@[n - 1]@);
        if is_failure_line_exec(log[n - 1].as_str()) {
            return log[n - 1].clone();
        }
        n -= 1;
    }
    "chdman termino con error".to_owned()
}

/// Message of a job whose tool could not be found.
pub fn missing_tool_message(tool: &str) -> (r: String)
    ensures
        r@ == "No se encontro «"@ + tool@ + "». Instalalo desde Ajustes → Herramientas."@,
{
    crate::text::cat3("No se encontro «", tool, "». Instalalo desde Ajustes → Herramientas.")
}

// ------------------------------------------------------------------ outcome

/// Modes that produce a new file from their source, so that the source may
/// be deleted afterwards.
pub open spec fn produces_copy(mode: Seq<char>) -> bool {
    starts_with(mode, "create"@) || mode == "nsp2nsz"@ || mode == "xci2xcz"@ || mode == "nsz2nsp"@
        || mode == "xcz2xci"@ || mode == "xci2nsp"@
}

/// What is left to do once a job's process has ended.
#[derive(PartialEq, Eq, Structural, Clone, Copy, Debug)]
pub enum Outcome {
    /// Cancelled by the user: clean up what the tool left half done.
    Canceled { remove_output: bool, remove_extra: bool },
    /// The tool failed: an empty output is removed.
    Failed { remove_output: bool },
    /// The tool succeeded: check the new CHD first if asked, and delete the
    /// source when it was asked for and something new was produced.
    Succeeded { verify_first: bool, delete_source: bool },
}

pub open spec fn outcome_spec(
    j: JobParams,
    s: Settings,
    canceled: bool,
    exit_ok: bool,
    out_size: u64,
) -> Outcome {
    let verify = j.mode@ == "verify"@;
    if canceled {
        Outcome::Canceled { remove_output: !verify, remove_extra: !verify && j.output_extra is Some }
    } else if !exit_ok {
        Outcome::Failed { remove_output: !verify && out_size == 0 }
    } else {
        Outcome::Succeeded {
            verify_first: s.verify_after && j.tool@ == "chdman"@ && starts_with(j.mode@, "create"@),
            delete_source: s.delete_source && produces_copy(j.mode@) && out_size > 0,
        }
    }
}

/// What to do once a job's process has ended, given whether the user
/// cancelled it, whether the tool exited successfully and the size of what
/// it wrote.
pub fn outcome(job: &JobParams, s: &Settings, canceled: bool, exit_ok: bool, out_size: u64) -> (r:
    Outcome)
    ensures
        r == outcome_spec(*job, *s, canceled, exit_ok, out_size),
{
    let verify = is_verify(job.mode.as_str());
    if canceled {
        Outcome::Canceled {
            remove_output: !verify,
            remove_extra: !verify && job.output_extra.is_some(),
        }
    } else if !exit_ok {
        Outcome::Failed { remove_output: !verify && out_size == 0 }
    } else {
        let m = job.mode.as_str();
        let create = str_starts_with(m, "create");
        let produced = create || eq_str(m, "nsp2nsz") || eq_str(m, "xci2xcz") || eq_str(m, "nsz2nsp")
            || eq_str(m, "xcz2xci") || eq_str(m, "xci2nsp");
        Outcome::Succeeded {
            verify_first: s.verify_after && eq_str(job.tool.as_str(), "chdman") && create,
            delete_source: s.delete_source && produced && out_size > 0,
        }
    }
}

/// What the check of a newly created CHD gave.
#[derive(PartialEq, Eq, Structural, Clone, Copy, Debug)]
pub enum CheckResult {
    /// No check was asked for.
    NotRun,
    /// chdman found the CHD sound.
    Passed,
    /// chdman reported a damaged CHD.
    Failed,
    /// chdman could not be run to check it.
    Unavailable,
}

/// Whether the source is deleted at the end of a job: only after a success
/// that asked for it, and never when the check of the new CHD failed.
pub open spec fn source_deleted_spec(o: Outcome, check: CheckResult) -> bool {
    match o {
        Outcome::Succeeded { delete_source, .. } => delete_source && check != CheckResult::Failed,
        _ => false,
    }
}

/// Whether to delete the source once the job's process has ended and, when
/// it was asked for, the new CHD has been checked.
pub fn source_deleted(o: Outcome, check: CheckResult) -> (r: bool)
    ensures
        r == source_deleted_spec(o, check),
{
    match o {
        Outcome::Succeeded { delete_source, .. } => delete_source && check != CheckResult::Failed,
        _ => false,
    }
}

/// The source of a job is deleted exactly when the tool finished
/// successfully without being cancelled, produced a non-empty new file in a
/// mode that makes a copy, the user asked for it, and the check of the new
/// CHD did not fail.
pub proof fn lemma_source_deleted_only_on_success(
    j: JobParams,
    s: Settings,
    canceled: bool,
    exit_ok: bool,
    out_size: u64,
    check: CheckResult,
)
    ensures
        source_deleted_spec(outcome_spec(j, s, canceled, exit_ok, out_size), check) <==> (!canceled
            && exit_ok && out_size > 0 && s.delete_source && produces_copy(j.mode@) && check
            != CheckResult::Failed),
{
}

/// A job whose source is deleted is one the tool finished successfully,
/// that produced a non-empty new file, and whose user asked for it; a
/// cancelled or failed job never deletes its source, and a checking job
/// never loses an output.
pub proof fn lemma_source_kept_unless_produced(
    j: JobParams,
    s: Settings,
    canceled: bool,
    exit_ok: bool,
    out_size: u64,
)
    ensures
        outcome_spec(j, s, canceled, exit_ok, out_size) matches Outcome::Succeeded {
            delete_source: true,
            ..
        } ==> !canceled && exit_ok && out_size > 0 && s.delete_source && produces_copy(j.mode@),
        j.mode@ == "verify"@ ==> match outcome_spec(j, s, canceled, exit_ok, out_size) {
            Outcome::Canceled { remove_output, remove_extra } => !remove_output && !remove_extra,
            Outcome::Failed { remove_output } => !remove_output,
            Outcome::Succeeded { .. } => true,
        },
{
}

// ------------------------------------------------------------------ ids

/// The short id suffix of a job: a counter mixed with the clock, in
/// lower-case hexadecimal.
pub fn mix_hex(counter: u64, nanos: u64) -> (r: String)
    ensures
        r@ == crate::text::hex((counter.wrapping_mul(0x9E37_79B9_7F4A_7C15) ^ nanos) as nat),
{
    let mut r = String::new();
    crate::text::push_hex(&mut r, counter.wrapping_mul(0x9E37_79B9_7F4A_7C15) ^ nanos);
    assert(Seq::<char>::empty() + crate::text::hex(
        (counter.wrapping_mul(0x9E37_79B9_7F4A_7C15) ^ nanos) as nat,
    ) =~= crate::text::hex((counter.wrapping_mul(0x9E37_79B9_7F4A_7C15) ^ nanos) as nat));
    r
}

/// A job id: the creation time in milliseconds, a dash and the suffix.
pub fn job_id(millis: i64, suffix: &str) -> (r: String)
    ensures
        r@ == crate::text::dec_int(millis as int) + "-"@ + suffix@,
{
    let mut r = String::new();
    crate::text::push_dec_i64(&mut r, millis);
    r.append("-");
    r.append(suffix);
    assert(Seq::<char>::empty() + crate::text::dec_int(millis as int) =~= crate::text::dec_int(
        millis as int,
    ));
    r
}

// ------------------------------------------------------------------ reports

/// The last line of a tool's report, when it printed any.
pub open spec fn last_line_spec(text: Seq<char>) -> Option<Seq<char>> {
    let ls = crate::text::lines(text);
    if ls.len() > 0 {
        Some(ls.last())
    } else {
        None
    }
}

/// The last line of what a tool printed (`None` when it printed nothing).
pub fn last_line(text: &str) -> (r: Option<String>)
    ensures
        crate::tools::opt_view(r) == last_line_spec(text@),
{
    let mut ls = crate::text::lines_exec(&chars_of(text));
    let ghost lv = views(ls@);
    match ls.pop() {
        Some(l) => {
            assert(lv.last() == l@);
            Some(l)
        },
        None => None,
    }
}

/// The last line of `ls` among the first `n` that is not blank.
pub open spec fn last_nonblank_upto(ls: Seq<Seq<char>>, n: int) -> Option<Seq<char>>
    decreases n,
{
    if n <= 0 || n > ls.len() {
        None
    } else if crate::text::trim(ls[n - 1]).len() > 0 {
        Some(ls[n - 1])
    } else {
        last_nonblank_upto(ls, n - 1)
    }
}

/// The last line of a tool's report that is not blank, as printed.
pub fn last_nonblank_line(text: &str) -> (r: Option<String>)
    ensures
        crate::tools::opt_view(r) == last_nonblank_upto(
            crate::text::lines(text@),
            crate::text::lines(text@).len() as int,
        ),
{
    let tv = chars_of(text);
    let ls = crate::text::lines_exec(&tv);
    let ghost lv = views(ls@);
    assert(lv == crate::text::lines(text@));
    let mut n = ls.len();
    while n > 0
        invariant
            n <= ls.len(),
            lv == views(ls@),
            lv == crate::text::lines(text@),
            lv.len() == ls.len(),
            last_nonblank_upto(lv, ls.len() as int) == last_nonblank_upto(lv, n as int),
        decreases n,
    {
        assert(lv[n - 1] == ls@[n - 1]@);
        let cv = chars_of(ls[n - 1].as_str());
        let (a, b) = crate::text::trim_bounds(&cv);
        assert(crate::text::trim(lv[n - 1]).len() == b - a);
        if a < b {
            let l = ls[n - 1].clone();
            assert(l@ == lv[n - 1]);
            assert(last_nonblank_upto(lv, n as int) == Some(lv[n - 1]));
            return Some(l);
        }
        n -= 1;
    }
    None
}

/// Why ctrtool could not decrypt a partition, when its report says so:
/// a seed-encrypted game needs `seeddb.bin`, any other failure points at
/// `boot9.bin`.
pub open spec fn decrypt_failure_spec(out: Seq<char>) -> Option<Seq<char>> {
    let low = crate::text::lower(out);
    if crate::text::contains(low, "unable to decrypt"@) {
        if crate::text::contains(low, "seed"@) {
            Some(
                "Este juego usa cifrado por semilla y no se encontro seeddb.bin. Indicale su ruta en esta misma pantalla."@,
            )
        } else {
            Some("No se pudo descifrar el contenido. Revisa que boot9.bin sea correcto."@)
        }
    } else {
        None
    }
}

/// The message for a failed decryption, read from ctrtool's report.
pub fn decrypt_failure_message(out: &str) -> (r: Option<String>)
    ensures
        crate::tools::opt_view(r) == decrypt_failure_spec(out@),
{
    let low = crate::text::lower_chars(&chars_of(out));
    if crate::text::contains_exec(&low, &chars_of("unable to decrypt")) {
        if crate::text::contains_exec(&low, &chars_of("seed")) {
            Some(
                "Este juego usa cifrado por semilla y no se encontro seeddb.bin. Indicale su ruta en esta misma pantalla.".to_owned(),
            )
        } else {
            Some("No se pudo descifrar el contenido. Revisa que boot9.bin sea correcto.".to_owned())
        }
    } else {
        None
    }
}

/// A checking job names no output: chdman's `verify` command line is just
/// the mode and its input.
pub proof fn lemma_verify_writes_nothing(j: JobParams, s: Settings)
    requires
        j.mode@ == "verify"@,
    ensures
        chdman_args_spec(j, s) == seq!["verify"@, "-i"@, j.input@],
{
    reveal_strlit("verify");
    reveal_strlit("create");
    assert(!starts_with(j.mode@, "create"@)) by {
        if starts_with(j.mode@, "create"@) {
            assert(j.mode@.take(6)[0] == j.mode@[0]);
            assert(j.mode@[0] == 'v');
        }
    }
    assert(chdman_args_spec(j, s) =~= seq!["verify"@, "-i"@, j.input@]);
}


// ------------------------------------------------------------------ job life

/// The part of a job that its events change: progress figures, sizes and
/// times are kept by the caller.
pub struct JobState {
    pub status: JobStatus,
    /// What the job is doing, as shown in the interface
    pub phase: String,
    /// Why the job stopped, or a warning
    pub message: Option<String>,
    pub log: Vec<String>,
}

/// A job's state as a value: status, phase, message and log lines.
pub type JobModel = (JobStatus, Seq<char>, Option<Seq<char>>, Seq<Seq<char>>);

impl JobState {
    /// A job just added to the queue: waiting, with no message and an empty
    /// log.
    pub fn queued() -> (r: JobState)
        ensures
            r@ == (JobStatus::Queued, "En cola"@, None::<Seq<char>>, Seq::<Seq<char>>::empty()),
    {
        JobState {
            status: JobStatus::Queued,
            phase: "En cola".to_owned(),
            message: None,
            log: Vec::new(),
        }
    }
}

impl View for JobState {
    type V = JobModel;

    open spec fn view(&self) -> JobModel {
        (self.status, self.phase@, crate::tools::opt_view(self.message), views(self.log@))
    }
}

/// What happens to a job while it runs.
pub enum JobEvent {
    /// The job cannot run in this build, for the reason given.
    Refused { reason: String },
    /// The tool that the job needs was not found.
    ToolMissing { tool: String },
    /// The job's process is about to start.
    Started,
    /// The process could not be started.
    SpawnFailed { reason: String },
    /// A tool that prints nothing is still writing its output.
    Heartbeat,
    /// A progress line was read; its phase is given.
    Progress { phase: String },
    /// Any other line of output was read.
    Output { line: String },
    /// The user cancelled the job and its process has ended.
    Canceled,
    /// The tool ended with an error.
    Failed,
    /// The new CHD is being checked.
    Verifying,
    /// The check of the new CHD failed; this is what chdman printed.
    VerifyFailed { output: String },
    /// The check could not be run, for the reason given.
    VerifyUnavailable { reason: String },
    /// The job ended successfully.
    Finished,
    /// The user cancelled a job that has no process: a queued job is
    /// cancelled, any other is left as it is.
    Withdrawn,
}

/// A job's state after one event.
pub open spec fn job_step(s: JobModel, ev: JobEvent) -> JobModel {
    let (status, phase, message, log) = s;
    match ev {
        JobEvent::Refused { reason } => (JobStatus::Error, "Error"@, Some(reason@), log),
        JobEvent::ToolMissing { tool } => (
            JobStatus::Error,
            phase,
            Some("No se encontro «"@ + tool@ + "». Instalalo desde Ajustes → Herramientas."@),
            log,
        ),
        JobEvent::Started => (JobStatus::Running, "Iniciando"@, message, log),
        JobEvent::SpawnFailed { reason } => (
            JobStatus::Error,
            phase,
            Some("No se pudo iniciar chdman: "@ + reason@),
            log,
        ),
        JobEvent::Heartbeat => (
            status,
            if phase == "Iniciando"@ {
                "Procesando"@
            } else {
                phase
            },
            message,
            log,
        ),
        JobEvent::Progress { phase: p } => (status, p@, message, log),
        JobEvent::Output { line } => (status, phase, message, push_log_spec(log, line@)),
        JobEvent::Canceled => (
            JobStatus::Canceled,
            "Cancelado"@,
            Some("Cancelado por el usuario"@),
            log,
        ),
        JobEvent::Failed => (JobStatus::Error, "Error"@, Some(failure_message_spec(log)), log),
        JobEvent::Verifying => (status, "Verificando"@, message, log),
        JobEvent::VerifyFailed { output } => (
            JobStatus::Error,
            "Verificacion fallida"@,
            Some(
                match last_line_spec(output@) {
                    Some(l) => l,
                    None => "Verificacion fallida"@,
                },
            ),
            log,
        ),
        JobEvent::VerifyUnavailable { reason } => (
            status,
            phase,
            Some("No se pudo verificar: "@ + reason@),
            log,
        ),
        JobEvent::Finished => (JobStatus::Done, "Listo"@, message, log),
        JobEvent::Withdrawn => if status == JobStatus::Queued {
            (JobStatus::Canceled, "Cancelado"@, message, log)
        } else {
            s
        },
    }
}

/// Applies one event to a job.
pub fn apply_event(st: &mut JobState, ev: JobEvent)
    ensures
        final(st)@ == job_step(old(st)@, ev),
{
    match ev {
        JobEvent::Refused { reason } => {
            st.status = JobStatus::Error;
            st.phase = "Error".to_owned();
            st.message = Some(reason);
        },
        JobEvent::ToolMissing { tool } => {
            st.status = JobStatus::Error;
            st.message = Some(missing_tool_message(tool.as_str()));
        },
        JobEvent::Started => {
            st.status = JobStatus::Running;
            st.phase = "Iniciando".to_owned();
        },
        JobEvent::SpawnFailed { reason } => {
            st.status = JobStatus::Error;
            st.message = Some(crate::text::cat("No se pudo iniciar chdman: ", reason.as_str()));
        },
        JobEvent::Heartbeat => {
            if eq_str(st.phase.as_str(), "Iniciando") {
                st.phase = "Procesando".to_owned();
            }
        },
        JobEvent::Progress { phase } => {
            st.phase = phase;
        },
        JobEvent::Output { line } => {
            push_log(&mut st.log, line);
        },
        JobEvent::Canceled => {
            st.status = JobStatus::Canceled;
            st.phase = "Cancelado".to_owned();
            st.message = Some("Cancelado por el usuario".to_owned());
        },
        JobEvent::Failed => {
            let m = failure_message(&st.log);
            st.status = JobStatus::Error;
            st.phase = "Error".to_owned();
            st.message = Some(m);
        },
        JobEvent::Verifying => {
            st.phase = "Verificando".to_owned();
        },
        JobEvent::VerifyFailed { output } => {
            let m = match last_line(output.as_str()) {
                Some(l) => l,
                None => "Verificacion fallida".to_owned(),
            };
            st.status = JobStatus::Error;
            st.phase = "Verificacion fallida".to_owned();
            st.message = Some(m);
        },
        JobEvent::VerifyUnavailable { reason } => {
            st.message = Some(crate::text::cat("No se pudo verificar: ", reason.as_str()));
        },
        JobEvent::Finished => {
            st.status = JobStatus::Done;
            st.phase = "Listo".to_owned();
        },
        JobEvent::Withdrawn => {
            let after = cancel_status(st.status);
            if after != st.status {
                st.status = after;
                st.phase = "Cancelado".to_owned();
            }
        },
    }
}

/// A job that failed says why, and its log stays within its limit.
pub open spec fn job_consistent(s: JobModel) -> bool {
    &&& s.0 == JobStatus::Error ==> s.2 is Some
    &&& s.3.len() <= log_limit()
}

/// Every event keeps a job consistent.
pub proof fn lemma_events_keep_consistency(s: JobModel, ev: JobEvent)
    requires
        job_consistent(s),
    ensures
        job_consistent(job_step(s, ev)),
{
    if let JobEvent::Output { line } = ev {
        lemma_push_log_bounded(s.3, line@);
    }
}

/// Only the start of a job makes it running, nothing puts a job back in the
/// queue, and the events that end a job leave it done, failed or cancelled.
pub proof fn lemma_status_moves(s: JobModel, ev: JobEvent)
    ensures
        job_step(s, ev).0 == JobStatus::Running ==> ev is Started || s.0 == JobStatus::Running,
        job_step(s, ev).0 == JobStatus::Queued ==> s.0 == JobStatus::Queued,
        ev is Finished ==> job_step(s, ev).0 == JobStatus::Done,
        ev is Canceled ==> job_step(s, ev).0 == JobStatus::Canceled,
        ev is Withdrawn ==> job_step(s, ev).0 == (if s.0 == JobStatus::Queued {
            JobStatus::Canceled
        } else {
            s.0
        }),
        (ev is Failed || ev is VerifyFailed || ev is Refused || ev is ToolMissing
            || ev is SpawnFailed) ==> job_step(s, ev).0 == JobStatus::Error,
        (ev is Heartbeat || ev is Progress || ev is Output || ev is Verifying
            || ev is VerifyUnavailable) ==> job_step(s, ev).0 == s.0,
{
}

/// Once a job has started, the heartbeat of a tool that prints nothing shows
/// it as processing; after a progress line the heartbeat leaves the phase
/// read from that line alone.
pub proof fn lemma_heartbeat(s: JobModel, phase: String, line: Seq<char>)
    requires
        phase@ == crate::progress::phase_spec(line),
    ensures
        job_step(job_step(s, JobEvent::Started), JobEvent::Heartbeat) == (
            JobStatus::Running,
            "Procesando"@,
            s.2,
            s.3,
        ),
        job_step(job_step(s, JobEvent::Progress { phase }), JobEvent::Heartbeat) == job_step(
            s,
            JobEvent::Progress { phase },
        ),
{
    reveal_strlit("Iniciando");
    reveal_strlit("Comprimiendo");
    reveal_strlit("Extrayendo");
    reveal_strlit("Verificando");
    reveal_strlit("Analizando");
    reveal_strlit("Procesando");
    assert(phase@.len() != "Iniciando"@.len());
}

// ------------------------------------------------------------------ laws

/// Every `create*` mode of chdman (createcd, createdvd, createhd,
/// createraw, ...) carries the job's compression choices: `-c` followed by
/// the codecs joined by commas when codecs are chosen, `-hs` and the hunk
/// size when one is given, and `-np` and the thread count when it is not
/// zero; and a chdman job's command line is chdman's.
pub proof fn lemma_create_flags(j: JobParams, s: Settings)
    requires
        j.mode@.len() >= 6,
        j.mode@.subrange(0, 6) == "create"@,
    ensures
        ({
            let a = chdman_args_spec(j, s);
            &&& a[0] == j.mode@
            &&& j.codecs.len() > 0 ==> exists|i: int|
                0 <= i && i + 1 < a.len() && #[trigger] a[i] == "-c"@ && a[i + 1] == join(
                    views(j.codecs@),
                    ","@,
                )
            &&& j.hunk_size matches Some(h) ==> exists|i: int|
                0 <= i && i + 1 < a.len() && #[trigger] a[i] == "-hs"@ && a[i + 1] == dec(
                    h as nat,
                )
            &&& s.threads > 0 ==> exists|i: int|
                0 <= i && i + 1 < a.len() && #[trigger] a[i] == "-np"@ && a[i + 1] == dec(
                    s.threads as nat,
                )
        }),
        j.tool@ == "chdman"@ ==> build_args_spec(j, s) == Some(chdman_args_spec(j, s)),
{
    reveal_strlit("create");
    reveal_strlit("chdman");
    reveal_strlit("nsz");
    reveal_strlit("4nxci");
    reveal_strlit("z3ds");
    reveal_strlit("3dsconv");
    reveal_strlit("wit");
    reveal_strlit("dolphintool");
    reveal_strlit("ps3iso");
    reveal_strlit("iso2god");
    reveal_strlit("xiso");
    reveal_strlit("maxcso");
    if j.tool@ == "chdman"@ {
        assert(j.tool@[0] == 'c');
        assert(j.tool@ != "ps3iso"@ && j.tool@ != "maxcso"@ && j.tool@ != "iso2god"@);
        assert(j.tool@ != "xiso"@ && j.tool@ != "3dsconv"@);
        assert(builds_args_for(j.tool@));
    }
    assert(j.mode@.take(6) =~= j.mode@.subrange(0, 6));
    assert(starts_with(j.mode@, "create"@));
    let pre = seq![j.mode@, "-i"@, j.input@] + chdman_output_flags(j, s);
    let c: Seq<Seq<char>> = if j.codecs.len() > 0 {
        seq!["-c"@, join(views(j.codecs@), ","@)]
    } else {
        seq![]
    };
    let hs: Seq<Seq<char>> = match j.hunk_size {
        Some(h) => seq!["-hs"@, dec(h as nat)],
        None => seq![],
    };
    let us: Seq<Seq<char>> = if j.mode@ == "createraw"@ {
        seq![
            "-us"@,
            dec(
                match j.unit_size {
                    Some(u) => u as nat,
                    None => 512,
                },
            ),
        ]
    } else {
        seq![]
    };
    let np: Seq<Seq<char>> = if s.threads > 0 {
        seq!["-np"@, dec(s.threads as nat)]
    } else {
        seq![]
    };
    assert(chdman_create_flags(j, s) == c + hs + us + np);
    let a = chdman_args_spec(j, s);
    assert(a =~= pre + c + hs + us + np);
    assert(a[0] == j.mode@);
    if j.codecs.len() > 0 {
        let i = pre.len() as int;
        assert(a[i] == "-c"@);
        assert(a[i + 1] == join(views(j.codecs@), ","@));
    }
    if let Some(h) = j.hunk_size {
        let i = (pre.len() + c.len()) as int;
        assert(a[i] == "-hs"@);
        assert(a[i + 1] == dec(h as nat));
    }
    if s.threads > 0 {
        let i = a.len() - 2;
        assert(a[i] == "-np"@);
        assert(a[i + 1] == dec(s.threads as nat));
    }
}

/// The modes that make a new copy of their source: every `create*` mode of
/// chdman and the five conversions of Switch images.
pub proof fn lemma_produces_copy(mode: Seq<char>)
    ensures
        produces_copy(mode) <==> ((mode.len() >= 6 && mode.subrange(0, 6) == "create"@) || mode
            == "nsp2nsz"@ || mode == "xci2xcz"@ || mode == "nsz2nsp"@ || mode == "xcz2xci"@
            || mode == "xci2nsp"@),
{
    reveal_strlit("create");
    if mode.len() >= 6 {
        assert(mode.take(6) =~= mode.subrange(0, 6));
    }
}

/// After a successful, uncancelled job in a `create*` mode with a non-empty
/// output, a chdman job is checked exactly when the settings ask for it and
/// deletes its source exactly when the settings ask for it; a job of another
/// tool is never checked.
pub proof fn lemma_create_outcome(j: JobParams, s: Settings, out_size: u64)
    requires
        j.mode@.len() >= 6,
        j.mode@.subrange(0, 6) == "create"@,
        out_size > 0,
    ensures
        j.tool@ == "chdman"@ ==> outcome_spec(j, s, false, true, out_size) == (Outcome::Succeeded {
            verify_first: s.verify_after,
            delete_source: s.delete_source,
        }),
        j.tool@ != "chdman"@ ==> outcome_spec(j, s, false, true, out_size) == (Outcome::Succeeded {
            verify_first: false,
            delete_source: s.delete_source,
        }),
{
    reveal_strlit("create");
    assert(j.mode@.take(6) =~= j.mode@.subrange(0, 6));
    assert(starts_with(j.mode@, "create"@));
}

/// How many of the jobs are running, counted directly.
pub open spec fn jobs_running(st: Seq<JobStatus>) -> nat {
    st.filter(|x: JobStatus| x == JobStatus::Running).len()
}

proof fn lemma_running_count_counts(st: Seq<JobStatus>)
    ensures
        running_count(st) == jobs_running(st),
    decreases st.len(),
{
    reveal(Seq::filter);
    if st.len() > 0 {
        lemma_running_count_counts(st.drop_last());
    }
}

/// The queue allows `parallel` jobs at once, and one when it is 0: while
/// fewer are running it starts the first queued job, if any; once that many
/// are running it starts none.
pub proof fn lemma_queue_uses_the_setting(st: Seq<JobStatus>, parallel: usize)
    ensures
        jobs_running(st) < (if parallel == 0 {
            1
        } else {
            parallel as int
        }) && (exists|q: int| 0 <= q < st.len() && st[q] == JobStatus::Queued)
            ==> (pick_next_spec(st, parallel) matches Some(i) && 0 <= i < st.len() && st[i]
            == JobStatus::Queued && forall|k: int| 0 <= k < i ==> st[k] != JobStatus::Queued),
        jobs_running(st) >= (if parallel == 0 {
            1
        } else {
            parallel as int
        }) ==> pick_next_spec(st, parallel) is None,
        (forall|q: int| 0 <= q < st.len() ==> st[q] != JobStatus::Queued) ==> pick_next_spec(
            st,
            parallel,
        ) is None,
{
    lemma_running_count_counts(st);
    lemma_first_queued(st, 0);
}

/// A log line that reports a failure: lower-cased, it holds "error",
/// "unable" or "fatal".
pub open spec fn reports_failure(l: Seq<char>) -> bool {
    crate::text::contains(crate::text::lower(l), "error"@) || crate::text::contains(
        crate::text::lower(l),
        "unable"@,
    ) || crate::text::contains(crate::text::lower(l), "fatal"@)
}

proof fn lemma_last_failure(log: Seq<Seq<char>>, n: int)
    requires
        0 <= n <= log.len(),
    ensures
        last_failure_upto(log, n) matches Some(x) ==> exists|i: int|
            0 <= i < n && x == log[i] && reports_failure(log[i]) && forall|k: int|
                i < k < n ==> !reports_failure(#[trigger] log[k]),
        last_failure_upto(log, n) is None ==> forall|k: int|
            0 <= k < n ==> !reports_failure(#[trigger] log[k]),
    decreases n,
{
    if n > 0 && !is_failure_line(log[n - 1]) {
        lemma_last_failure(log, n - 1);
        if let Some(x) = last_failure_upto(log, n - 1) {
            let i = choose|i: int|
                0 <= i < n - 1 && x == log[i] && reports_failure(log[i]) && forall|k: int|
                    i < k < n - 1 ==> !reports_failure(#[trigger] log[k]);
            assert forall|k: int| i < k < n implies !reports_failure(#[trigger] log[k]) by {}
        }
    } else if n > 0 {
        assert forall|k: int| n - 1 < k < n implies !reports_failure(#[trigger] log[k]) by {}
    }
}

/// The message of a failed job is the last log line that reports a failure
/// (lower-cased, it holds "error", "unable" or "fatal"); when no line does,
/// it is the general "chdman termino con error".
pub proof fn lemma_failure_message(log: Seq<Seq<char>>)
    ensures
        (exists|i: int| 0 <= i < log.len() && reports_failure(#[trigger] log[i])) ==> exists|
            i: int,
        |
            0 <= i < log.len() && failure_message_spec(log) == log[i] && reports_failure(log[i])
                && forall|k: int| i < k < log.len() ==> !reports_failure(#[trigger] log[k]),
        (forall|i: int| 0 <= i < log.len() ==> !reports_failure(#[trigger] log[i]))
            ==> failure_message_spec(log) == "chdman termino con error"@,
{
    lemma_last_failure(log, log.len() as int);
}

/// Adding a line to a job's log keeps the newest lines: the log grows by one
/// until it holds 400 lines, and from then on the oldest line goes.
pub proof fn lemma_push_log_keeps_newest(log: Seq<Seq<char>>, line: Seq<char>)
    requires
        log.len() <= 400,
    ensures
        push_log_spec(log, line).len() == (if log.len() < 400 {
            log.len() + 1
        } else {
            400
        }),
        push_log_spec(log, line) == log.push(line).skip(
            log.len() + 1 - push_log_spec(log, line).len(),
        ),
{
    assert(log.push(line).skip(0) =~= log.push(line));
    assert(log.push(line).skip(1) =~= log.push(line).drop_first());
}

/// chdman's command line names the mode, then `-i` and the input; every
/// mode but `verify` names `-o` and the output next, `-ob` and the second
/// output when there is one, and `-f` when overwriting is allowed; a
/// `verify` command line is just the mode, `-i` and the input.
pub proof fn lemma_output_flags(j: JobParams, s: Settings)
    ensures
        ({
            let a = chdman_args_spec(j, s);
            &&& a.len() >= 3 && a[0] == j.mode@ && a[1] == "-i"@ && a[2] == j.input@
            &&& j.mode@ != "verify"@ ==> a.len() >= 5 && a[3] == "-o"@ && a[4] == j.output@
            &&& j.mode@ != "verify"@ && j.output_extra is Some ==> a.len() >= 7 && a[5] == "-ob"@
                && a[6] == j.output_extra.unwrap()@
            &&& j.mode@ != "verify"@ && s.overwrite ==> exists|i: int|
                0 <= i < a.len() && #[trigger] a[i] == "-f"@
            &&& j.mode@ == "verify"@ ==> a == seq![j.mode@, "-i"@, j.input@]
        }),
{
    let a = chdman_args_spec(j, s);
    let o = chdman_output_flags(j, s);
    assert(a =~= seq![j.mode@, "-i"@, j.input@] + o + chdman_create_flags(j, s));
    if j.mode@ != "verify"@ {
        if s.overwrite {
            let i = 3 + o.len() - 1;
            assert(a[i] == "-f"@);
        }
    } else {
        lemma_verify_writes_nothing(j, s);
    }
}

} // verus!
