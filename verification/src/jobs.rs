//! The table of render jobs: what is running, how far it is, and how it ended.

use vstd::hash_map::StringHashMap;
use vstd::prelude::*;

use crate::double::Double;
use crate::reply;
use crate::reply::{Refusal, Status};
use crate::text;

verus! {

/// The bits of 0.0, where every job starts.
pub const PERCENT_NONE: u64 = 0x0;

/// The bits of 99.5, the most that an unfinished job shows.
pub const PERCENT_CAP: u64 = 0x4058_e000_0000_0000;

/// The bits of 100.0, what a job shows once it has succeeded.
pub const PERCENT_FULL: u64 = 0x4059_0000_0000_0000;

/// Where every job starts.
pub open spec fn percent_none() -> Double {
    Double { bits: PERCENT_NONE }
}

/// The most that an unfinished job shows.
pub open spec fn percent_cap() -> Double {
    Double { bits: PERCENT_CAP }
}

/// What a job shows once it has succeeded.
pub open spec fn percent_full() -> Double {
    Double { bits: PERCENT_FULL }
}

/// One render job.
#[derive(Debug)]
pub struct Job {
    pub percent: Double,
    pub done: bool,
    pub ok: bool,
    pub error: String,
    pub out: String,
    pub dir: String,
}

/// A job by its parts.
pub struct JobView {
    pub percent: Double,
    pub done: bool,
    pub ok: bool,
    pub error: Seq<char>,
    pub out: Seq<char>,
    pub dir: Seq<char>,
}

impl View for Job {
    type V = JobView;

    open spec fn view(&self) -> JobView {
        JobView {
            percent: self.percent,
            done: self.done,
            ok: self.ok,
            error: self.error@,
            out: self.out@,
            dir: self.dir@,
        }
    }
}

/// The jobs by their identifiers.
pub type JobMap = Map<Seq<char>, JobView>;

/// What the progress of a job is reported as. The percentage is missing where no
/// job has it.
#[derive(Debug)]
pub struct Report {
    pub percent: Option<Double>,
    pub done: bool,
    pub ok: bool,
    pub error: String,
}

/// A report by its parts.
pub struct ReportView {
    pub percent: Option<Double>,
    pub done: bool,
    pub ok: bool,
    pub error: Seq<char>,
}

impl View for Report {
    type V = ReportView;

    open spec fn view(&self) -> ReportView {
        ReportView {
            percent: self.percent,
            done: self.done,
            ok: self.ok,
            error: self.error@,
        }
    }
}

/// The percentage that a report shows: none where no job has one.
pub open spec fn shown_percent_of(report: ReportView) -> Double {
    match report.percent {
        Some(p) => p,
        None => percent_none(),
    }
}

impl Report {
    /// The percentage that is shown.
    pub fn shown_percent(&self) -> (r: Double)
        ensures
            r == shown_percent_of(self@),
    {
        match self.percent {
            Some(p) => p,
            None => Double { bits: PERCENT_NONE },
        }
    }
}

/// The finished video and the directory to clear once it has been handed over.
#[derive(Debug)]
pub struct Delivery {
    pub out: String,
    pub dir: String,
}

/// A job that has just been taken on.
pub open spec fn fresh_job(out: Seq<char>, dir: Seq<char>) -> JobView {
    JobView { percent: percent_none(), done: false, ok: false, error: seq![], out, dir }
}

/// The table with a fresh job under `id`.
pub open spec fn with_job(m: JobMap, id: Seq<char>, out: Seq<char>, dir: Seq<char>) -> JobMap {
    m.insert(id, fresh_job(out, dir))
}

/// The table once job `id`, if there is one, has come to `raw` percent.
pub open spec fn with_percent(m: JobMap, id: Seq<char>, raw: Double) -> JobMap {
    if m.contains_key(id) {
        m.insert(id, JobView { percent: raw.clamp_of(percent_none(), percent_cap()), ..m[id] })
    } else {
        m
    }
}

/// A job that has ended.
pub open spec fn ended_job(job: JobView, ok: bool, error: Seq<char>) -> JobView {
    JobView {
        done: true,
        ok,
        error,
        percent: if ok {
            percent_full()
        } else {
            job.percent
        },
        ..job
    }
}

/// The table once job `id`, if there is one, has ended.
pub open spec fn with_end(m: JobMap, id: Seq<char>, ok: bool, error: Seq<char>) -> JobMap {
    if m.contains_key(id) {
        m.insert(id, ended_job(m[id], ok, error))
    } else {
        m
    }
}

/// What is reported of job `id`. A job that nobody knows counts as failed.
pub open spec fn report_of(m: JobMap, id: Seq<char>) -> ReportView {
    if m.contains_key(id) {
        ReportView {
            percent: Some(m[id].percent),
            done: m[id].done,
            ok: m[id].ok,
            error: m[id].error,
        }
    } else {
        ReportView { percent: None, done: true, ok: false, error: "unknown job"@ }
    }
}

/// Why the result of job `id` is not handed over, if it is not.
pub open spec fn withheld_of(m: JobMap, id: Seq<char>) -> Option<reply::RefusalView> {
    if !m.contains_key(id) {
        Some(reply::RefusalView { status: Status::NotFound, message: "unknown job"@ })
    } else if !m[id].done {
        Some(reply::RefusalView { status: Status::Accepted, message: "not ready"@ })
    } else if !m[id].ok {
        Some(
            reply::RefusalView {
                status: Status::Internal,
                message: "ffmpeg failed:\n"@ + m[id].error,
            },
        )
    } else {
        None
    }
}

/// The table once the video of job `id` was to be handed over: a job whose video
/// could be read is forgotten, any other one is kept.
pub open spec fn after_hand_over(m: JobMap, id: Seq<char>, read: bool) -> JobMap {
    if read {
        m.remove(id)
    } else {
        m
    }
}

/// The table of render jobs.
pub struct Jobs {
    table: StringHashMap<Job>,
}

impl View for Jobs {
    type V = JobMap;

    closed spec fn view(&self) -> JobMap {
        self.table@.map_values(|j: Job| j@)
    }
}

impl Jobs {
    /// An empty table.
    pub fn new() -> (r: Jobs)
        ensures
            r@ == Map::<Seq<char>, JobView>::empty(),
    {
        let r = Jobs { table: StringHashMap::new() };
        assert(r@ =~= Map::<Seq<char>, JobView>::empty());
        r
    }

    fn put(&mut self, id: &str, job: Job)
        ensures
            final(self)@ == old(self)@.insert(id@, job@),
    {
        let ghost before = self@;
        self.table.insert(id.to_owned(), job);
        assert(self@ =~= before.insert(id@, job@));
    }

    /// Takes on a job that will leave its video at `out` and works in `dir`.
    pub fn register(&mut self, id: &str, out: &str, dir: &str)
        ensures
            final(self)@ == with_job(old(self)@, id@, out@, dir@),
    {
        let job = Job {
            percent: Double { bits: PERCENT_NONE },
            done: false,
            ok: false,
            error: String::new(),
            out: out.to_owned(),
            dir: dir.to_owned(),
        };
        assert(job@.error =~= seq![]);
        self.put(id, job);
    }

    /// Notes that job `id` has come to `raw` percent, kept within what an
    /// unfinished job may show.
    pub fn record(&mut self, id: &str, raw: Double)
        ensures
            final(self)@ == with_percent(old(self)@, id@, raw),
    {
        let job = match self.table.get(id) {
            None => return,
            Some(j) => Job {
                percent: raw.clamped(
                    Double { bits: PERCENT_NONE },
                    Double { bits: PERCENT_CAP },
                ),
                done: j.done,
                ok: j.ok,
                error: j.error.clone(),
                out: j.out.clone(),
                dir: j.dir.clone(),
            },
        };
        self.put(id, job);
    }

    /// Notes that job `id` has ended.
    pub fn finish(&mut self, id: &str, ok: bool, error: String)
        ensures
            final(self)@ == with_end(old(self)@, id@, ok, error@),
    {
        let job = match self.table.get(id) {
            None => return,
            Some(j) => Job {
                percent: if ok {
                    Double { bits: PERCENT_FULL }
                } else {
                    j.percent
                },
                done: true,
                ok,
                error,
                out: j.out.clone(),
                dir: j.dir.clone(),
            },
        };
        self.put(id, job);
    }

    /// How far job `id` is.
    pub fn progress(&self, id: &str) -> (r: Report)
        ensures
            r@ == report_of(self@, id@),
    {
        match self.table.get(id) {
            Some(j) => Report {
                percent: Some(j.percent),
                done: j.done,
                ok: j.ok,
                error: j.error.clone(),
            },
            None => Report {
                percent: None,
                done: true,
                ok: false,
                error: "unknown job".to_owned(),
            },
        }
    }

    /// The result of job `id`, if it has succeeded.
    pub fn result(&self, id: &str) -> (r: Result<Delivery, Refusal>)
        ensures
            match r {
                Ok(delivery) => {
                    &&& withheld_of(self@, id@) is None
                    &&& delivery.out@ == self@[id@].out
                    &&& delivery.dir@ == self@[id@].dir
                },
                Err(refusal) => withheld_of(self@, id@) == Some(refusal@),
            },
    {
        match self.table.get(id) {
            None => Err(reply::refuse(Status::NotFound, "unknown job")),
            Some(j) => {
                if !j.done {
                    return Err(reply::refuse(Status::Accepted, "not ready"));
                }
                if !j.ok {
                    let mut message = "ffmpeg failed:\n".to_owned();
                    message.append(j.error.as_str());
                    return Err(Refusal { status: Status::Internal, message });
                }
                Ok(Delivery { out: j.out.clone(), dir: j.dir.clone() })
            },
        }
    }

    /// Forgets job `id`.
    pub fn remove(&mut self, id: &str)
        ensures
            final(self)@ == old(self)@.remove(id@),
    {
        let ghost before = self@;
        self.table.remove(id);
        assert(self@ =~= before.remove(id@));
    }

    /// Forgets job `id` if its video could be read, so that it can be handed over;
    /// keeps the job if it could not.
    pub fn hand_over(&mut self, id: &str, read: bool)
        ensures
            final(self)@ == after_hand_over(old(self)@, id@, read),
    {
        if read {
            self.remove(id);
        }
    }
}

/// What is kept of the error output of an encoder that has exited.
pub open spec fn kept_error(ok: bool, stderr: Seq<char>) -> Seq<char> {
    if ok {
        seq![]
    } else {
        stderr
    }
}

/// What is kept of the error output of an encoder that has exited: nothing if
/// it succeeded.
pub fn exit_error(ok: bool, stderr: String) -> (r: String)
    ensures
        r@ == kept_error(ok, stderr@),
{
    if ok {
        String::new()
    } else {
        stderr
    }
}

/// The hours, minutes and seconds of a progress line of the encoder, as text.
/// Lines of another kind have none.
pub open spec fn out_time_of(line: Seq<char>) -> Option<Seq<Seq<char>>> {
    if !"out_time="@.is_prefix_of(line) {
        None
    } else {
        let fields = text::split_on(text::trim_of(line.skip("out_time="@.len() as int)), ':');
        if fields.len() < 3 {
            None
        } else {
            Some(fields.take(3))
        }
    }
}

/// The hours, minutes and seconds of a line `out_time=HH:MM:SS.micro`, as text.
pub fn out_time_fields(line: &str) -> (r: Option<(String, String, String)>)
    ensures
        match r {
            Some((h, m, s)) => out_time_of(line@) == Some(seq![h@, m@, s@]),
            None => out_time_of(line@) is None,
        },
{
    let value = match text::strip_start(line, "out_time=") {
        None => return None,
        Some(v) => v,
    };
    proof {
        let n = "out_time="@.len() as int;
        assert(line@.take(n) =~= "out_time="@);
        assert(line@.skip(n) =~= value@);
        assert("out_time="@.is_prefix_of(line@));
    }
    let trimmed = text::trim(value.as_str());
    let fields = text::split(trimmed.as_str(), ':');
    assert(text::texts(fields@).len() == fields@.len());
    if fields.len() < 3 {
        return None;
    }
    let h = fields[0].clone();
    let m = fields[1].clone();
    let s = fields[2].clone();
    assert(text::texts(fields@).take(3) =~= seq![h@, m@, s@]);
    Some((h, m, s))
}

/// A progress line is read field by field: the hours, the minutes and the
/// seconds come out as they were written.
pub proof fn law_out_time_is_read(h: Seq<char>, m: Seq<char>, s: Seq<char>)
    requires
        !h.contains(':'),
        !m.contains(':'),
        !s.contains(':'),
        h.len() > 0 ==> !text::is_white(h[0]),
        s.len() > 0 ==> !text::is_white(s.last()),
    ensures
        out_time_of("out_time="@ + (h.push(':') + (m.push(':') + s))) == Some(seq![h, m, s]),
{
    let head = "out_time="@;
    let tail = m.push(':') + s;
    let value = h.push(':') + tail;
    let line = head + value;
    assert(line.take(head.len() as int) =~= head);
    assert(head.is_prefix_of(line));
    assert(line.skip(head.len() as int) =~= value);
    assert(value[0] == if h.len() > 0 {
        h[0]
    } else {
        ':'
    });
    assert(value.last() == if s.len() > 0 {
        s.last()
    } else {
        ':'
    });
    text::lemma_trimmed(value);
    text::lemma_split_first(h, ':', tail);
    text::lemma_split_first(m, ':', s);
    text::lemma_split_none(s, ':');
    assert((seq![h] + (seq![m] + seq![s])).take(3) =~= seq![h, m, s]);
}

/// What the table keeps to however its operations follow one another: a job that
/// is not done has not succeeded, has no error, and shows no more than the cap;
/// one that is done has been at most full. A percentage that is not a number is
/// left alone.
pub open spec fn within_bounds(m: JobMap) -> bool {
    forall|id: Seq<char>| #[trigger] m.contains_key(id) ==> job_within_bounds(m[id])
}

/// See `within_bounds`.
pub open spec fn job_within_bounds(job: JobView) -> bool {
    &&& !job.done ==> {
        &&& !job.ok
        &&& job.error.len() == 0
        &&& job.percent.is_nan() || 0 <= job.percent.rank() <= percent_cap().rank()
    }
    &&& job.percent.is_nan() || 0 <= job.percent.rank() <= percent_full().rank()
}

/// The table is within bounds when it is empty, and every operation keeps it so.
pub proof fn law_table_stays_within_bounds(
    m: JobMap,
    id: Seq<char>,
    out: Seq<char>,
    dir: Seq<char>,
    raw: Double,
    ok: bool,
    error: Seq<char>,
)
    requires
        within_bounds(m),
    ensures
        within_bounds(Map::<Seq<char>, JobView>::empty()),
        within_bounds(with_job(m, id, out, dir)),
        within_bounds(with_percent(m, id, raw)),
        within_bounds(with_end(m, id, ok, error)),
        within_bounds(m.remove(id)),
{
    assert(percent_none().rank() == 0 && percent_cap().rank() < percent_full().rank());
    assert(job_within_bounds(fresh_job(out, dir)));
    if m.contains_key(id) {
        assert(job_within_bounds(m[id]));
        assert(raw.clamp_of(percent_none(), percent_cap()).is_nan() || 0 <= raw.clamp_of(
            percent_none(),
            percent_cap(),
        ).rank() <= percent_cap().rank());
        assert(job_within_bounds(with_percent(m, id, raw)[id]));
        assert(job_within_bounds(with_end(m, id, ok, error)[id]));
    }
}

/// What the table keeps to as long as nothing is told of a job that has
/// succeeded, and success comes without an error: exactly the jobs that have
/// succeeded are full and done without an error, and every other one, running or
/// failed, shows no more than the cap.
pub open spec fn in_order(m: JobMap) -> bool {
    forall|id: Seq<char>| #[trigger] m.contains_key(id) ==> job_in_order(m[id])
}

/// See `in_order`.
pub open spec fn job_in_order(job: JobView) -> bool {
    &&& job.ok ==> job.done && job.percent == percent_full() && job.error.len() == 0
    &&& !job.ok ==> job.percent.is_nan() || 0 <= job.percent.rank() <= percent_cap().rank()
    &&& !job.done ==> job.error.len() == 0
}

/// The table is in order when it is empty. Taking a job on and forgetting one
/// keep it so; so does progress of a job that has not succeeded, the end of such a
/// job, and a success that brings no error.
pub proof fn law_table_stays_in_order(
    m: JobMap,
    id: Seq<char>,
    out: Seq<char>,
    dir: Seq<char>,
    raw: Double,
    error: Seq<char>,
)
    requires
        in_order(m),
    ensures
        in_order(Map::<Seq<char>, JobView>::empty()),
        in_order(with_job(m, id, out, dir)),
        in_order(m.remove(id)),
        m.contains_key(id) && m[id].ok || in_order(with_percent(m, id, raw)),
        m.contains_key(id) && m[id].ok || in_order(with_end(m, id, false, error)),
        in_order(with_end(m, id, true, kept_error(true, error))),
{
    assert(percent_none().rank() == 0 && percent_cap().rank() < percent_full().rank());
    assert(job_in_order(fresh_job(out, dir)));
    if m.contains_key(id) {
        assert(job_in_order(m[id]));
        assert(raw.clamp_of(percent_none(), percent_cap()).is_nan() || 0 <= raw.clamp_of(
            percent_none(),
            percent_cap(),
        ).rank() <= percent_cap().rank());
        assert(m[id].ok || job_in_order(with_percent(m, id, raw)[id]));
        assert(m[id].ok || job_in_order(with_end(m, id, false, error)[id]));
        assert(job_in_order(with_end(m, id, true, kept_error(true, error))[id]));
    }
}

/// A job that is in order shows full exactly if it has succeeded.
pub proof fn law_full_means_success(m: JobMap, id: Seq<char>)
    requires
        in_order(m),
        m.contains_key(id),
    ensures
        m[id].percent == percent_full() <==> m[id].ok,
{
    assert(job_in_order(m[id]));
    assert(percent_cap().rank() < percent_full().rank());
}

/// No operation on one job touches another.
pub proof fn law_jobs_are_independent(
    m: JobMap,
    id: Seq<char>,
    other: Seq<char>,
    out: Seq<char>,
    dir: Seq<char>,
    raw: Double,
    ok: bool,
    error: Seq<char>,
)
    requires
        id != other,
    ensures
        report_of(with_job(m, id, out, dir), other) == report_of(m, other),
        report_of(with_percent(m, id, raw), other) == report_of(m, other),
        report_of(with_end(m, id, ok, error), other) == report_of(m, other),
        report_of(m.remove(id), other) == report_of(m, other),
        withheld_of(with_job(m, id, out, dir), other) == withheld_of(m, other),
        withheld_of(with_percent(m, id, raw), other) == withheld_of(m, other),
        withheld_of(with_end(m, id, ok, error), other) == withheld_of(m, other),
        withheld_of(m.remove(id), other) == withheld_of(m, other),
{
}

/// A job that has just been taken on shows nothing done, and its result is not
/// ready.
pub proof fn law_fresh_job_is_not_ready(m: JobMap, id: Seq<char>, out: Seq<char>, dir: Seq<char>)
    ensures
        report_of(with_job(m, id, out, dir), id) == (ReportView {
            percent: Some(percent_none()),
            done: false,
            ok: false,
            error: seq![],
        }),
        withheld_of(with_job(m, id, out, dir), id) == Some(
            reply::RefusalView { status: Status::Accepted, message: "not ready"@ },
        ),
{
}

/// A job that is still running goes on being not ready however far it is.
pub proof fn law_running_job_is_not_ready(m: JobMap, id: Seq<char>, raw: Double)
    requires
        m.contains_key(id),
        !m[id].done,
    ensures
        !report_of(with_percent(m, id, raw), id).done,
        withheld_of(with_percent(m, id, raw), id) == Some(
            reply::RefusalView { status: Status::Accepted, message: "not ready"@ },
        ),
{
}

/// A job that ended well shows full, and its result is handed over: the video
/// and the directory that it was taken on with.
pub proof fn law_success_is_delivered(m: JobMap, id: Seq<char>, error: Seq<char>)
    requires
        m.contains_key(id),
    ensures
        report_of(with_end(m, id, true, error), id).percent == Some(percent_full()),
        report_of(with_end(m, id, true, error), id).done,
        report_of(with_end(m, id, true, error), id).ok,
        withheld_of(with_end(m, id, true, error), id) is None,
        with_end(m, id, true, error)[id].out == m[id].out,
        with_end(m, id, true, error)[id].dir == m[id].dir,
{
}

/// A job that failed says so with its error, keeps the percentage it had, and
/// its result is refused with that error.
pub proof fn law_failure_is_reported(m: JobMap, id: Seq<char>, error: Seq<char>)
    requires
        m.contains_key(id),
    ensures
        report_of(with_end(m, id, false, error), id) == (ReportView {
            percent: Some(m[id].percent),
            done: true,
            ok: false,
            error,
        }),
        withheld_of(with_end(m, id, false, error), id) == Some(
            reply::RefusalView {
                status: Status::Internal,
                message: "ffmpeg failed:\n"@ + error,
            },
        ),
{
}

/// A job that was handed over is forgotten, and nothing brings it back but
/// taking it on again.
pub proof fn law_removed_job_is_unknown(
    m: JobMap,
    id: Seq<char>,
    raw: Double,
    ok: bool,
    error: Seq<char>,
)
    ensures
        report_of(m.remove(id), id) == (ReportView {
            percent: None,
            done: true,
            ok: false,
            error: "unknown job"@,
        }),
        shown_percent_of(report_of(m.remove(id), id)) == percent_none(),
        withheld_of(m.remove(id), id) == Some(
            reply::RefusalView { status: Status::NotFound, message: "unknown job"@ },
        ),
        with_percent(m.remove(id), id, raw) == m.remove(id),
        with_end(m.remove(id), id, ok, error) == m.remove(id),
{
}

/// A job stays known exactly until its video has been read: one whose video could
/// not be read can still be asked for.
pub proof fn law_unread_video_is_kept(m: JobMap, id: Seq<char>)
    requires
        m.contains_key(id),
    ensures
        after_hand_over(m, id, false) == m,
        withheld_of(after_hand_over(m, id, false), id) == withheld_of(m, id),
        !after_hand_over(m, id, true).contains_key(id),
{
}

/// A job that nobody knows shows nothing done, and says that it is done,
/// so that nobody goes on waiting for it.
pub proof fn law_unknown_job_is_done(m: JobMap, id: Seq<char>)
    requires
        !m.contains_key(id),
    ensures
        shown_percent_of(report_of(m, id)) == percent_none(),
        report_of(m, id).done,
        !report_of(m, id).ok,
        report_of(m, id).error == "unknown job"@,
{
}

/// A percentage is shown as it was recorded as long as it lies between none and the
/// cap; below it shows none, above it shows the cap.
pub proof fn law_percent_is_shown(m: JobMap, id: Seq<char>, raw: Double)
    requires
        m.contains_key(id),
    ensures
        ({
            let shown = shown_percent_of(report_of(with_percent(m, id, raw), id));
            let cap = Double { bits: 0x4058_e000_0000_0000 };
            &&& raw.is_nan() ==> shown == raw
            &&& !raw.is_nan() && 0 <= raw.rank() <= cap.rank() ==> shown == raw
            &&& !raw.is_nan() && raw.rank() < 0 ==> shown == (Double { bits: 0 })
            &&& !raw.is_nan() && raw.rank() > cap.rank() ==> shown == cap
        }),
{
}

/// Progress moves the percentage of its job and nothing else.
pub proof fn law_progress_moves_the_percentage_only(m: JobMap, id: Seq<char>, raw: Double)
    requires
        m.contains_key(id),
    ensures
        ({
            let after = with_percent(m, id, raw);
            &&& after.dom() == m.dom()
            &&& after[id].done == m[id].done
            &&& after[id].ok == m[id].ok
            &&& after[id].error == m[id].error
            &&& after[id].out == m[id].out
            &&& after[id].dir == m[id].dir
        }),
{
    assert(with_percent(m, id, raw).dom() =~= m.dom());
}

/// Progress or the end of a job that nobody knows changes nothing.
pub proof fn law_unknown_job_is_left_alone(
    m: JobMap,
    id: Seq<char>,
    raw: Double,
    ok: bool,
    error: Seq<char>,
)
    requires
        !m.contains_key(id),
    ensures
        with_percent(m, id, raw) == m,
        with_end(m, id, ok, error) == m,
{
}

/// The error output of an encoder is kept if it failed, and dropped if it succeeded.
pub proof fn law_errors_are_kept_of_failures(stderr: Seq<char>)
    ensures
        kept_error(false, stderr) == stderr,
        kept_error(true, stderr).len() == 0,
{
}

/// Lines of another kind have no time, nor has a time with fewer than three fields.
/// What follows a third field is not looked at.
pub proof fn law_other_lines_have_no_time(
    line: Seq<char>,
    h: Seq<char>,
    m: Seq<char>,
    s: Seq<char>,
    rest: Seq<char>,
)
    requires
        !h.contains(':'),
        !m.contains(':'),
        !s.contains(':'),
        h.len() > 0,
        !text::is_white(h[0]),
        m.len() > 0,
        !text::is_white(m.last()),
        !text::is_white(h.last()),
        rest.len() > 0,
        !text::is_white(rest.last()),
    ensures
        !"out_time="@.is_prefix_of(line) ==> out_time_of(line) is None,
        out_time_of("out_time="@ + h) is None,
        out_time_of("out_time="@ + (h.push(':') + m)) is None,
        out_time_of("out_time="@ + (h.push(':') + (m.push(':') + (s.push(':') + rest)))) == Some(
            seq![h, m, s],
        ),
{
    lemma_value_of_line(h);
    let two = h.push(':') + m;
    assert(two[0] == h[0] && two.last() == m.last());
    lemma_value_of_line(two);
    let four = h.push(':') + (m.push(':') + (s.push(':') + rest));
    assert(four[0] == h[0] && four.last() == rest.last());
    lemma_value_of_line(four);
    text::lemma_split_none(h, ':');
    text::lemma_split_none(m, ':');
    text::lemma_split_first(h, ':', m);
    text::lemma_split_first(h, ':', m.push(':') + (s.push(':') + rest));
    text::lemma_split_first(m, ':', s.push(':') + rest);
    text::lemma_split_first(s, ':', rest);
    assert((seq![h] + (seq![m] + (seq![s] + text::split_on(rest, ':')))).take(3) =~= seq![h, m, s]);
}

proof fn lemma_value_of_line(value: Seq<char>)
    requires
        value.len() > 0,
        !text::is_white(value[0]),
        !text::is_white(value.last()),
    ensures
        "out_time="@.is_prefix_of("out_time="@ + value),
        text::trim_of(("out_time="@ + value).skip("out_time="@.len() as int)) == value,
{
    let head = "out_time="@;
    let line = head + value;
    assert(line.take(head.len() as int) =~= head);
    assert(line.skip(head.len() as int) =~= value);
    text::lemma_trimmed(value);
}

/// Whatever is reported of a job and handed over of it comes out as the table has it.
pub proof fn law_jobs_come_out(
    jobs: Jobs,
    id: &str,
    report: Report,
    shown: Double,
    result: Result<Delivery, Refusal>,
)
    requires
        call_ensures(Jobs::progress, (&jobs, id), report),
        call_ensures(Report::shown_percent, (&report,), shown),
        call_ensures(Jobs::result, (&jobs, id), result),
    ensures
        jobs@.contains_key(id@) ==> {
            let job = jobs@[id@];
            &&& shown == job.percent
            &&& report.done == job.done
            &&& report.ok == job.ok
            &&& report.error@ == job.error
            &&& result is Ok <==> job.done && job.ok
            &&& result is Ok ==> result->Ok_0.out@ == job.out && result->Ok_0.dir@ == job.dir
            &&& !job.done ==> result->Err_0.status is Accepted && result->Err_0.message@
                == "not ready"@
            &&& job.done && !job.ok ==> result->Err_0.status is Internal && result->Err_0.message@
                == "ffmpeg failed:\n"@ + job.error
        },
        !jobs@.contains_key(id@) ==> {
            &&& shown == (Double { bits: 0 })
            &&& report.done
            &&& !report.ok
            &&& report.error@ == "unknown job"@
            &&& result is Err
            &&& result->Err_0.status is NotFound
            &&& result->Err_0.message@ == "unknown job"@
        },
{
}

/// A table that was just made holds no job.
pub proof fn law_new_table_is_empty(jobs: Jobs, id: Seq<char>)
    requires
        call_ensures(Jobs::new, (), jobs),
    ensures
        !jobs@.contains_key(id),
{
}

/// Whatever is read of a progress line comes out as the laws have it, and the error
/// output is kept of failures only.
pub proof fn law_progress_lines_come_out(
    line: &str,
    r: Option<(String, String, String)>,
    ok: bool,
    stderr: String,
    kept: String,
)
    requires
        call_ensures(out_time_fields, (line,), r),
        call_ensures(exit_error, (ok, stderr), kept),
    ensures
        r is None <==> out_time_of(line@) is None,
        r is Some ==> out_time_of(line@) == Some(seq![(r->0).0@, (r->0).1@, (r->0).2@]),
        ok ==> kept@.len() == 0,
        !ok ==> kept@ == stderr@,
{
}

/// The end of a job is recorded as it was told: done, whether it went well, and the
/// error; its files stay.
pub proof fn law_end_is_recorded(m: JobMap, id: Seq<char>, ok: bool, error: Seq<char>)
    requires
        m.contains_key(id),
    ensures
        ({
            let job = with_end(m, id, ok, error)[id];
            &&& with_end(m, id, ok, error).dom() == m.dom()
            &&& job.done
            &&& job.ok == ok
            &&& job.error == error
            &&& job.out == m[id].out
            &&& job.dir == m[id].dir
            &&& ok ==> job.percent == (Double { bits: 0x4059_0000_0000_0000 })
            &&& !ok ==> job.percent == m[id].percent
        }),
{
    assert(with_end(m, id, ok, error).dom() =~= m.dom());
}

/// Whatever a job is told changes the table as the laws have it.
pub proof fn law_table_follows_what_it_is_told(
    taken: &mut Jobs,
    moved: &mut Jobs,
    ended: &mut Jobs,
    given: &mut Jobs,
    dropped: &mut Jobs,
    id: &str,
    out: &str,
    dir: &str,
    raw: Double,
    ok: bool,
    error: String,
    read: bool,
)
    requires
        call_ensures(Jobs::register, (taken, id, out, dir), ()),
        call_ensures(Jobs::record, (moved, id, raw), ()),
        call_ensures(Jobs::finish, (ended, id, ok, error), ()),
        call_ensures(Jobs::hand_over, (given, id, read), ()),
        call_ensures(Jobs::remove, (dropped, id), ()),
    ensures
        final(taken)@ == with_job(old(taken)@, id@, out@, dir@),
        final(moved)@ == with_percent(old(moved)@, id@, raw),
        final(ended)@ == with_end(old(ended)@, id@, ok, error@),
        read ==> final(given)@ == old(given)@.remove(id@),
        !read ==> final(given)@ == old(given)@,
        final(dropped)@ == old(dropped)@.remove(id@),
{
}

/// A job is taken on with its own files, nothing done yet, and no other job is touched.
pub proof fn law_job_is_taken_on(m: JobMap, id: Seq<char>, out: Seq<char>, dir: Seq<char>)
    ensures
        with_job(m, id, out, dir) == m.insert(
            id,
            JobView {
                percent: Double { bits: 0 },
                done: false,
                ok: false,
                error: seq![],
                out,
                dir,
            },
        ),
{
}

} // verus!
