use vstd::prelude::*;
use crate::error::SpoolerError;
use crate::models::PrintJob;
use crate::printer_storage::{find_remote_id, PrinterMap};

verus! {

/// Lifecycle status of a print job, as reported to the remote service.
#[derive(Clone, Copy, PartialEq, Eq, Structural, Debug)]
pub enum JobStatus {
    Queued,
    Processing,
    Completed,
    Failed,
    Cancelled,
}

/// A terminal status is never left again.
pub open spec fn is_terminal(s: JobStatus) -> bool {
    s == JobStatus::Completed || s == JobStatus::Failed || s == JobStatus::Cancelled
}

/// Whether this status ends a job's lifecycle.
pub fn status_is_terminal(s: JobStatus) -> (r: bool)
    ensures
        r == is_terminal(s),
{
    match s {
        JobStatus::Completed => true,
        JobStatus::Failed => true,
        JobStatus::Cancelled => true,
        _ => false,
    }
}

/// State of a submitted job as the local spooler reports it.
#[derive(Clone, Copy, PartialEq, Eq, Structural, Debug)]
pub enum LocalJobState {
    Pending,
    Paused,
    Processing,
    Cancelled,
    Completed,
    Unknown,
}

/// The transition table from the spooler's vocabulary onto the lifecycle
/// statuses: anything still moving maps to Processing, a successful end to
/// Completed, a cancellation to Cancelled, and a state the adapter cannot
/// classify to Failed.
pub open spec fn spec_status_of_local(st: LocalJobState) -> JobStatus {
    match st {
        LocalJobState::Pending => JobStatus::Processing,
        LocalJobState::Paused => JobStatus::Processing,
        LocalJobState::Processing => JobStatus::Processing,
        LocalJobState::Completed => JobStatus::Completed,
        LocalJobState::Cancelled => JobStatus::Cancelled,
        LocalJobState::Unknown => JobStatus::Failed,
    }
}

/// Map a spooler-reported state onto the lifecycle model; see
/// `spec_status_of_local`.
pub fn status_of_local(st: LocalJobState) -> (r: JobStatus)
    ensures
        r == spec_status_of_local(st),
{
    match st {
        LocalJobState::Pending => JobStatus::Processing,
        LocalJobState::Paused => JobStatus::Processing,
        LocalJobState::Processing => JobStatus::Processing,
        LocalJobState::Completed => JobStatus::Completed,
        LocalJobState::Cancelled => JobStatus::Cancelled,
        LocalJobState::Unknown => JobStatus::Failed,
    }
}

/// Local bookkeeping for a job between submission and terminal state. The
/// handle is empty while the submission is still in progress.
pub struct InFlightJob {
    pub job_id: u32,
    pub local_job_handle: Option<u64>,
    pub printer_stable_id: String,
    pub submitted_at: u64,
    pub last_reported_status: JobStatus,
}

/// Mathematical image of an `InFlightJob`.
#[verifier::ext_equal]
pub struct InFlightJobView {
    pub job_id: u32,
    pub local_job_handle: Option<u64>,
    pub printer_stable_id: Seq<char>,
    pub submitted_at: u64,
    pub last_reported_status: JobStatus,
}

impl View for InFlightJob {
    type V = InFlightJobView;

    open spec fn view(&self) -> InFlightJobView {
        InFlightJobView {
            job_id: self.job_id,
            local_job_handle: self.local_job_handle,
            printer_stable_id: self.printer_stable_id@,
            submitted_at: self.submitted_at,
            last_reported_status: self.last_reported_status,
        }
    }
}

impl DeepView for InFlightJob {
    type V = InFlightJobView;

    open spec fn deep_view(&self) -> InFlightJobView {
        self.view()
    }
}

impl InFlightJob {
    /// A field-for-field copy of this entry.
    pub fn duplicate(&self) -> (r: InFlightJob)
        ensures
            r@ == self@,
    {
        InFlightJob {
            job_id: self.job_id,
            local_job_handle: self.local_job_handle,
            printer_stable_id: self.printer_stable_id.clone(),
            submitted_at: self.submitted_at,
            last_reported_status: self.last_reported_status,
        }
    }
}

/// Some entry tracks this job.
pub open spec fn contains_job(s: Seq<InFlightJobView>, job_id: u32) -> bool {
    exists|i: int| 0 <= i < s.len() && (#[trigger] s[i]).job_id == job_id
}

/// No two entries track one job.
pub open spec fn unique_job_ids(s: Seq<InFlightJobView>) -> bool {
    forall|i: int, j: int|
        0 <= i < j < s.len() ==> (#[trigger] s[i]).job_id != (#[trigger] s[j]).job_id
}

/// The registry invariant: one entry per job, and no entry lingers after
/// its terminal report.
pub open spec fn registry_wf(s: Seq<InFlightJobView>) -> bool {
    unique_job_ids(s) && forall|i: int|
        0 <= i < s.len() ==> !is_terminal((#[trigger] s[i]).last_reported_status)
}

/// The index of the entry tracking this job (meaningful under
/// `contains_job`; unique under `registry_wf`).
pub open spec fn job_index(s: Seq<InFlightJobView>, job_id: u32) -> int {
    choose|i: int| 0 <= i < s.len() && (#[trigger] s[i]).job_id == job_id
}

/// Appending an entry extends the tracked jobs by exactly its id.
pub proof fn lemma_contains_job_push(s: Seq<InFlightJobView>, e: InFlightJobView, x: u32)
    ensures
        contains_job(s.push(e), x) <==> (contains_job(s, x) || e.job_id == x),
{
    if contains_job(s, x) {
        let i = choose|i: int| 0 <= i < s.len() && (#[trigger] s[i]).job_id == x;
        assert(s.push(e)[i].job_id == x);
    }
    if e.job_id == x {
        assert(s.push(e)[s.len() as int].job_id == x);
    }
    if contains_job(s.push(e), x) {
        let i = choose|i: int| 0 <= i < s.push(e).len() && (#[trigger] s.push(e)[i]).job_id == x;
        if i < s.len() {
            assert(s[i].job_id == x);
        }
    }
}

/// Claiming a job in the registry: a job not yet tracked enters with an
/// empty handle and status Queued, and the claim succeeds; a tracked job
/// leaves the registry unchanged and the claim fails.
pub open spec fn claim_model(
    s: Seq<InFlightJobView>,
    job_id: u32,
    printer: Seq<char>,
    now: u64,
) -> (Seq<InFlightJobView>, bool) {
    if contains_job(s, job_id) {
        (s, false)
    } else {
        (
            s.push(
                InFlightJobView {
                    job_id,
                    local_job_handle: None,
                    printer_stable_id: printer,
                    submitted_at: now,
                    last_reported_status: JobStatus::Queued,
                },
            ),
            true,
        )
    }
}

/// What one observation of one in-flight entry decides.
pub struct CheckOutcome {
    pub report: Option<JobStatus>,
    pub remove: bool,
    pub timed_out: bool,
}

/// Evaluate one observation against one entry. A reported spooler state
/// maps through the transition table; an unchanged status reports
/// nothing; a changed one is reported, and removes the entry when it is
/// terminal. A job the spooler does not know is left alone until its age
/// passes the timeout, at which point a Failed transition is synthesized
/// exactly once.
pub open spec fn eval_model(
    e: InFlightJobView,
    obs: Option<LocalJobState>,
    now: u64,
    timeout: u64,
) -> CheckOutcome {
    match obs {
        Some(st) => {
            let m = spec_status_of_local(st);
            if m == e.last_reported_status {
                CheckOutcome { report: None, remove: false, timed_out: false }
            } else {
                CheckOutcome { report: Some(m), remove: is_terminal(m), timed_out: false }
            }
        },
        None => {
            if now >= e.submitted_at + timeout {
                CheckOutcome { report: Some(JobStatus::Failed), remove: true, timed_out: true }
            } else {
                CheckOutcome { report: None, remove: false, timed_out: false }
            }
        },
    }
}

/// The message a synthesized timeout failure carries upstream.
pub open spec fn spec_timeout_message() -> Seq<char> {
    "print job was never seen by the local spooler before the timeout"@
}

/// A status update for the remote service, as the update endpoint takes
/// it.
pub struct StatusReport {
    pub id: u32,
    pub is_completed: bool,
    pub status: JobStatus,
    pub cups_job_id: Option<u64>,
    pub error_message: Option<String>,
}

/// Mathematical image of a `StatusReport`.
#[verifier::ext_equal]
pub struct StatusReportView {
    pub id: u32,
    pub is_completed: bool,
    pub status: JobStatus,
    pub cups_job_id: Option<u64>,
    pub error_message: Option<Seq<char>>,
}

impl View for StatusReport {
    type V = StatusReportView;

    open spec fn view(&self) -> StatusReportView {
        StatusReportView {
            id: self.id,
            is_completed: self.is_completed,
            status: self.status,
            cups_job_id: self.cups_job_id,
            error_message: self.error_message.deep_view(),
        }
    }
}

/// The report an outcome sends upstream, if any: the entry's job under
/// the new status, carrying the local handle for traceability, and the
/// timeout explanation when the failure was synthesized.
pub open spec fn report_model(e: InFlightJobView, oc: CheckOutcome) -> Option<StatusReportView> {
    match oc.report {
        Some(st) => Some(
            StatusReportView {
                id: e.job_id,
                is_completed: is_terminal(st),
                status: st,
                cups_job_id: e.local_job_handle,
                error_message: if oc.timed_out {
                    Some(spec_timeout_message())
                } else {
                    None
                },
            },
        ),
        None => None,
    }
}

/// One status-checking step over the registry: evaluate the observation
/// against the entry tracking the job, update or remove that entry, and
/// return the report to send. A job the registry does not track reports
/// nothing and changes nothing.
pub open spec fn apply_model(
    s: Seq<InFlightJobView>,
    job_id: u32,
    obs: Option<LocalJobState>,
    now: u64,
    timeout: u64,
) -> (Seq<InFlightJobView>, Option<StatusReportView>) {
    if !contains_job(s, job_id) {
        (s, None)
    } else {
        let i = job_index(s, job_id);
        let e = s[i];
        let oc = eval_model(e, obs, now, timeout);
        let s2 = if oc.remove {
            s.remove(i)
        } else if oc.report is Some {
            s.update(i, InFlightJobView { last_reported_status: oc.report->0, ..e })
        } else {
            s
        };
        (s2, report_model(e, oc))
    }
}

/// The in-flight registry: one entry per submitted, not yet terminal job.
/// The supervisor shares it, behind one lock, between the ingestion paths
/// and the status-checking loop.
pub struct InFlightRegistry {
    entries: Vec<InFlightJob>,
}

impl View for InFlightRegistry {
    type V = Seq<InFlightJobView>;

    closed spec fn view(&self) -> Seq<InFlightJobView> {
        self.entries.deep_view()
    }
}

impl InFlightRegistry {
    pub open spec fn wf(&self) -> bool {
        registry_wf(self@)
    }

    pub fn new() -> (r: InFlightRegistry)
        ensures
            r@ == Seq::<InFlightJobView>::empty(),
            r.wf(),
    {
        let r = InFlightRegistry { entries: Vec::new() };
        proof {
            assert(r@ =~= Seq::<InFlightJobView>::empty());
        }
        r
    }

    pub fn len(&self) -> (n: usize)
        ensures
            n == self@.len(),
    {
        self.entries.len()
    }

    pub fn entry_at(&self, i: usize) -> (e: &InFlightJob)
        requires
            i < self@.len(),
        ensures
            e@ == self@[i as int],
    {
        &self.entries[i]
    }

    /// Index of the entry tracking this job, if one does.
    fn index_of(&self, job_id: u32) -> (r: Option<usize>)
        ensures
            match r {
                Some(i) => {
                    &&& i < self@.len()
                    &&& self@[i as int].job_id == job_id
                    &&& forall|j: int| 0 <= j < i ==> (#[trigger] self@[j]).job_id != job_id
                },
                None => !contains_job(self@, job_id),
            },
    {
        let n = self.entries.len();
        let mut i: usize = 0;
        while i < n
            invariant
                i <= n,
                n == self@.len(),
                forall|j: int| 0 <= j < i ==> (#[trigger] self@[j]).job_id != job_id,
            decreases n - i,
        {
            if self.entries[i].job_id == job_id {
                return Some(i);
            }
            i = i + 1;
        }
        None
    }

    /// Whether the registry tracks this job.
    pub fn contains_id(&self, job_id: u32) -> (r: bool)
        ensures
            r == contains_job(self@, job_id),
    {
        match self.index_of(job_id) {
            Some(_) => true,
            None => false,
        }
    }

    /// A copy of every entry, for the status loop to iterate outside the
    /// registry's lock.
    pub fn snapshot(&self) -> (r: Vec<InFlightJob>)
        ensures
            r.deep_view() == self@,
    {
        let n = self.entries.len();
        let mut r: Vec<InFlightJob> = Vec::new();
        let mut i: usize = 0;
        while i < n
            invariant
                i <= n,
                n == self@.len(),
                r.deep_view().len() == i,
                forall|j: int| 0 <= j < i ==> r.deep_view()[j] == self@[j],
            decreases n - i,
        {
            r.push(self.entries[i].duplicate());
            i = i + 1;
        }
        proof {
            assert(r.deep_view() =~= self@);
        }
        r
    }

    /// Claim a job for submission; see `claim_model`. Under the
    /// registry's lock this is what keeps a poll cycle and a push
    /// catch-up from submitting one job twice.
    pub fn try_claim(&mut self, job_id: u32, printer_stable_id: &String, now: u64) -> (r: bool)
        ensures
            final(self)@ == claim_model(old(self)@, job_id, printer_stable_id@, now).0,
            r == claim_model(old(self)@, job_id, printer_stable_id@, now).1,
            old(self).wf() ==> final(self).wf(),
    {
        match self.index_of(job_id) {
            Some(_) => false,
            None => {
                let ghost prev = self@;
                let entry = InFlightJob {
                    job_id,
                    local_job_handle: None,
                    printer_stable_id: printer_stable_id.clone(),
                    submitted_at: now,
                    last_reported_status: JobStatus::Queued,
                };
                let ghost ev = entry@;
                self.entries.push(entry);
                proof {
                    assert(self@ =~= prev.push(ev));
                    if registry_wf(prev) {
                        assert forall|i: int, j: int| 0 <= i < j < self@.len() implies (
                        #[trigger] self@[i]).job_id != (#[trigger] self@[j]).job_id by {
                            if j == prev.len() as int {
                                assert(self@[i] == prev[i]);
                            }
                        }
                    }
                }
                true
            },
        }
    }

    /// Record the local handle a successful submission returned.
    pub fn complete_submission(&mut self, job_id: u32, handle: u64)
        ensures
            final(self)@.len() == old(self)@.len(),
            forall|i: int|
                0 <= i < old(self)@.len() ==> final(self)@[i] == if old(self)@[i].job_id == job_id {
                    InFlightJobView { local_job_handle: Some(handle), ..old(self)@[i] }
                } else {
                    old(self)@[i]
                },
            old(self).wf() ==> final(self).wf(),
    {
        let n = self.entries.len();
        let mut i: usize = 0;
        while i < n
            invariant
                i <= n,
                n == self@.len(),
                self@.len() == old(self)@.len(),
                forall|j: int|
                    0 <= j < self@.len() ==> self@[j] == if j < i && old(self)@[j].job_id == job_id {
                        InFlightJobView { local_job_handle: Some(handle), ..old(self)@[j] }
                    } else {
                        old(self)@[j]
                    },
            decreases n - i,
        {
            let ghost prev = self@;
            if self.entries[i].job_id == job_id {
                let mut updated = self.entries[i].duplicate();
                updated.local_job_handle = Some(handle);
                self.entries.set(i, updated);
                proof {
                    assert(self@ =~= prev.update(i as int, updated@));
                }
            }
            proof {
                assert forall|j: int| 0 <= j < self@.len() implies self@[j] == if j < i + 1
                    && old(self)@[j].job_id == job_id {
                    InFlightJobView { local_job_handle: Some(handle), ..old(self)@[j] }
                } else {
                    old(self)@[j]
                } by {
                    if j != i {
                        assert(self@[j] == prev[j]);
                    } else {
                        assert(prev[j] == old(self)@[j]);
                        if old(self)@[j].job_id == job_id {
                            assert(self@[j] =~= (InFlightJobView {
                                local_job_handle: Some(handle),
                                ..old(self)@[j]
                            }));
                        }
                    }
                }
            }
            i = i + 1;
        }
        proof {
            if old(self).wf() {
                assert forall|i: int, j: int| 0 <= i < j < self@.len() implies (
                #[trigger] self@[i]).job_id != (#[trigger] self@[j]).job_id by {}
            }
        }
    }

    /// Drop the claim of a submission that failed: the job leaves the
    /// registry so a later poll or catch-up can retry it.
    pub fn abandon(&mut self, job_id: u32)
        requires
            old(self).wf(),
        ensures
            !contains_job(old(self)@, job_id) ==> final(self)@ == old(self)@,
            contains_job(old(self)@, job_id) ==> final(self)@ == old(self)@.remove(
                job_index(old(self)@, job_id),
            ),
            final(self).wf(),
    {
        match self.index_of(job_id) {
            Some(i) => {
                let ghost prev = self@;
                let ghost gi = i as int;
                proof {
                    assert(contains_job(prev, job_id));
                    let w = job_index(prev, job_id);
                    assert(0 <= w < prev.len() && prev[w].job_id == job_id);
                    assert(w == gi);
                    prev.remove_ensures(gi);
                }
                let _ = self.entries.remove(i);
                proof {
                    assert(self@ =~= prev.remove(gi));
                    assert forall|a: int, b: int| 0 <= a < b < self@.len() implies (
                    #[trigger] self@[a]).job_id != (#[trigger] self@[b]).job_id by {}
                    assert forall|a: int| 0 <= a < self@.len() implies !is_terminal(
                        (#[trigger] self@[a]).last_reported_status,
                    ) by {}
                }
            },
            None => {},
        }
    }

    /// One status-checking step for one job; see `apply_model`. Returns
    /// the status update to send upstream, if the observation warrants
    /// one.
    pub fn apply_observation(
        &mut self,
        job_id: u32,
        obs: Option<LocalJobState>,
        now: u64,
        timeout: u64,
    ) -> (r: Option<StatusReport>)
        requires
            old(self).wf(),
        ensures
            final(self)@ == apply_model(old(self)@, job_id, obs, now, timeout).0,
            match r {
                Some(rep) => apply_model(old(self)@, job_id, obs, now, timeout).1 == Some(rep@),
                None => apply_model(old(self)@, job_id, obs, now, timeout).1 is None,
            },
            final(self).wf(),
    {
        let idx = match self.index_of(job_id) {
            Some(i) => i,
            None => {
                return None;
            },
        };
        let ghost prev = self@;
        let ghost gi = idx as int;
        proof {
            assert(contains_job(prev, job_id));
            let w = job_index(prev, job_id);
            assert(0 <= w < prev.len() && prev[w].job_id == job_id);
            assert(w == gi);
        }
        let entry = &self.entries[idx];
        let ghost ev = prev[gi];
        let handle = entry.local_job_handle;
        let last = entry.last_reported_status;
        let submitted_at = entry.submitted_at;
        let outcome: (Option<JobStatus>, bool, bool) = match obs {
            Some(st) => {
                let m = status_of_local(st);
                if m == last {
                    (None, false, false)
                } else {
                    (Some(m), status_is_terminal(m), false)
                }
            },
            None => {
                if timeout <= now && now - timeout >= submitted_at {
                    (Some(JobStatus::Failed), true, true)
                } else {
                    (None, false, false)
                }
            },
        };
        proof {
            let oc = eval_model(ev, obs, now, timeout);
            assert(outcome.0 == oc.report && outcome.1 == oc.remove && outcome.2 == oc.timed_out);
        }
        let report: Option<StatusReport> = match outcome.0 {
            Some(st) => Some(
                StatusReport {
                    id: job_id,
                    is_completed: status_is_terminal(st),
                    status: st,
                    cups_job_id: handle,
                    error_message: if outcome.2 {
                        Some(
                            "print job was never seen by the local spooler before the timeout".to_owned(),
                        )
                    } else {
                        None
                    },
                },
            ),
            None => None,
        };
        if outcome.1 {
            proof {
                prev.remove_ensures(gi);
            }
            let _ = self.entries.remove(idx);
            proof {
                assert(self@ =~= prev.remove(gi));
                assert forall|a: int, b: int| 0 <= a < b < self@.len() implies (
                #[trigger] self@[a]).job_id != (#[trigger] self@[b]).job_id by {}
                assert forall|a: int| 0 <= a < self@.len() implies !is_terminal(
                    (#[trigger] self@[a]).last_reported_status,
                ) by {}
            }
        } else {
            match outcome.0 {
                Some(st) => {
                    let mut updated = self.entries[idx].duplicate();
                    updated.last_reported_status = st;
                    self.entries.set(idx, updated);
                    proof {
                        assert(updated@ =~= (InFlightJobView {
                            last_reported_status: st,
                            ..ev
                        }));
                        assert(self@ =~= prev.update(gi, updated@));
                        assert forall|a: int, b: int| 0 <= a < b < self@.len() implies (
                        #[trigger] self@[a]).job_id != (#[trigger] self@[b]).job_id by {}
                    }
                },
                None => {},
            }
        }
        report
    }
}

/// A fresh, non-terminal entry keeps a registry well-formed.
pub proof fn lemma_registry_wf_push(s: Seq<InFlightJobView>, e: InFlightJobView)
    requires
        registry_wf(s),
        !contains_job(s, e.job_id),
        !is_terminal(e.last_reported_status),
    ensures
        registry_wf(s.push(e)),
{
    assert forall|i: int, j: int| 0 <= i < j < s.push(e).len() implies (
    #[trigger] s.push(e)[i]).job_id != (#[trigger] s.push(e)[j]).job_id by {
        if j == s.len() as int {
            assert(s.push(e)[i] == s[i]);
        }
    }
}

/// Status monotonicity: a status pass that reports a terminal status for
/// a job — Completed observed, say — removes it from the registry, and a
/// later pass, whatever it observes, neither changes the registry for
/// that job nor reports anything for it. A job once reported Completed is
/// in particular never reported Processing again.
pub proof fn lemma_status_monotonic(
    s: Seq<InFlightJobView>,
    job_id: u32,
    obs1: Option<LocalJobState>,
    obs2: Option<LocalJobState>,
    now1: u64,
    now2: u64,
    timeout: u64,
)
    requires
        registry_wf(s),
        apply_model(s, job_id, obs1, now1, timeout).1 matches Some(rep) && is_terminal(rep.status),
    ensures
        !contains_job(apply_model(s, job_id, obs1, now1, timeout).0, job_id),
        apply_model(apply_model(s, job_id, obs1, now1, timeout).0, job_id, obs2, now2, timeout).0
            == apply_model(s, job_id, obs1, now1, timeout).0,
        apply_model(apply_model(s, job_id, obs1, now1, timeout).0, job_id, obs2, now2, timeout).1
            is None,
{
    assert(contains_job(s, job_id));
    let i = job_index(s, job_id);
    assert(0 <= i < s.len() && s[i].job_id == job_id);
    let e = s[i];
    let oc = eval_model(e, obs1, now1, timeout);
    assert(oc.remove);
    let s1 = apply_model(s, job_id, obs1, now1, timeout).0;
    assert(s1 == s.remove(i));
    s.remove_ensures(i);
    assert forall|j: int| 0 <= j < s1.len() implies (#[trigger] s1[j]).job_id != job_id by {
        if j < i {
            assert(s1[j] == s[j]);
        } else {
            assert(s1[j] == s[j + 1]);
        }
    }
}

/// Timeout failure: a job the spooler never reports is, once its age
/// passes the threshold, reported Failed exactly once — marked completed
/// and carrying the timeout explanation — and removed from the registry;
/// the next pass reports nothing for it.
pub proof fn lemma_timeout_failure(
    s: Seq<InFlightJobView>,
    job_id: u32,
    now1: u64,
    now2: u64,
    timeout: u64,
)
    requires
        registry_wf(s),
        contains_job(s, job_id),
        forall|i: int|
            0 <= i < s.len() && (#[trigger] s[i]).job_id == job_id ==> now1 >= s[i].submitted_at
                + timeout,
    ensures
        ({
            let r1 = apply_model(s, job_id, None, now1, timeout).1;
            &&& r1 matches Some(rep)
            &&& r1->0.id == job_id
            &&& r1->0.status == JobStatus::Failed
            &&& r1->0.is_completed
            &&& r1->0.error_message == Some(spec_timeout_message())
        }),
        !contains_job(apply_model(s, job_id, None, now1, timeout).0, job_id),
        apply_model(apply_model(s, job_id, None, now1, timeout).0, job_id, None, now2, timeout).1
            is None,
{
    let i = job_index(s, job_id);
    assert(0 <= i < s.len() && s[i].job_id == job_id);
    assert(now1 >= s[i].submitted_at + timeout);
    lemma_status_monotonic(s, job_id, None, None, now1, now2, timeout);
}

/// Catch-up dispatches each pending job exactly once: two jobs unknown to
/// the registry are claimed once each, and once both claims are in, a
/// racing duplicate claim of either job — a poll cycle overlapping the
/// catch-up fetch, say — fails.
pub proof fn lemma_catch_up_exactly_once(
    s: Seq<InFlightJobView>,
    a: u32,
    b: u32,
    pa: Seq<char>,
    pb: Seq<char>,
    ta: u64,
    tb: u64,
)
    requires
        !contains_job(s, a),
        !contains_job(s, b),
        a != b,
    ensures
        claim_model(s, a, pa, ta).1,
        claim_model(claim_model(s, a, pa, ta).0, b, pb, tb).1,
        ({
            let s2 = claim_model(claim_model(s, a, pa, ta).0, b, pb, tb).0;
            &&& !claim_model(s2, a, pa, ta).1
            &&& !claim_model(s2, b, pb, tb).1
        }),
{
    let ea = InFlightJobView {
        job_id: a,
        local_job_handle: None,
        printer_stable_id: pa,
        submitted_at: ta,
        last_reported_status: JobStatus::Queued,
    };
    let s1 = claim_model(s, a, pa, ta).0;
    lemma_contains_job_push(s, ea, b);
    assert(!contains_job(s1, b));
    let eb = InFlightJobView {
        job_id: b,
        local_job_handle: None,
        printer_stable_id: pb,
        submitted_at: tb,
        last_reported_status: JobStatus::Queued,
    };
    let s2 = claim_model(s1, b, pb, tb).0;
    lemma_contains_job_push(s, ea, a);
    lemma_contains_job_push(s1, eb, a);
    lemma_contains_job_push(s1, eb, b);
}

/// Matches the spooler-reported job carrying a given local handle.
pub open spec fn handle_pred(handle: u64) -> spec_fn((u64, LocalJobState)) -> bool {
    |j: (u64, LocalJobState)| j.0 == handle
}

/// The state filed under a local handle in one spooler report.
pub open spec fn spec_find_handle(
    jobs: Seq<(u64, LocalJobState)>,
    handle: u64,
) -> Option<(u64, LocalJobState)> {
    crate::seqs::first_where(jobs, handle_pred(handle))
}

/// What one status cycle observes for a local handle: the state the
/// active queue reports, else the state the completed-job history
/// reports, else nothing — the spooler does not know the handle.
pub open spec fn spec_observed_state(
    active: Seq<(u64, LocalJobState)>,
    history: Seq<(u64, LocalJobState)>,
    handle: u64,
) -> Option<LocalJobState> {
    match spec_find_handle(active, handle) {
        Some(j) => Some(j.1),
        None => match spec_find_handle(history, handle) {
            Some(j) => Some(j.1),
            None => None,
        },
    }
}

/// Search one spooler report for a handle, the active queue before the
/// history; see `spec_observed_state`.
pub fn observed_state(
    active: &Vec<(u64, LocalJobState)>,
    history: &Vec<(u64, LocalJobState)>,
    handle: u64,
) -> (r: Option<LocalJobState>)
    ensures
        r == spec_observed_state(active@, history@, handle),
{
    let n = active.len();
    let mut i: usize = 0;
    while i < n
        invariant
            i <= n,
            n == active@.len(),
            forall|j: int| 0 <= j < i ==> (#[trigger] active@[j]).0 != handle,
        decreases n - i,
    {
        if active[i].0 == handle {
            proof {
                assert(handle_pred(handle)(active@[i as int]));
                crate::seqs::lemma_first_where_hit(active@, handle_pred(handle), i as int);
            }
            return Some(active[i].1);
        }
        i = i + 1;
    }
    proof {
        assert(forall|j: int| 0 <= j < active@.len() ==> !handle_pred(handle)(#[trigger] active@[j]));
        crate::seqs::lemma_first_where_none(active@, handle_pred(handle));
    }
    let m = history.len();
    let mut k: usize = 0;
    while k < m
        invariant
            m == history@.len(),
            k <= m,
            spec_find_handle(active@, handle) is None,
            forall|j: int| 0 <= j < k ==> (#[trigger] history@[j]).0 != handle,
        decreases m - k,
    {
        if history[k].0 == handle {
            proof {
                assert(handle_pred(handle)(history@[k as int]));
                crate::seqs::lemma_first_where_hit(history@, handle_pred(handle), k as int);
            }
            return Some(history[k].1);
        }
        k = k + 1;
    }
    proof {
        assert(forall|j: int|
            0 <= j < history@.len() ==> !handle_pred(handle)(#[trigger] history@[j]));
        crate::seqs::lemma_first_where_none(history@, handle_pred(handle));
    }
    None
}

/// The ids of the jobs a fetch returned, in response order.
pub fn pending_job_ids(jobs: &Vec<PrintJob>) -> (r: Vec<u32>)
    ensures
        r@.len() == jobs@.len(),
        forall|i: int| 0 <= i < r@.len() ==> r@[i] == (#[trigger] jobs@[i]).id,
{
    let n = jobs.len();
    let mut r: Vec<u32> = Vec::new();
    let mut i: usize = 0;
    while i < n
        invariant
            i <= n,
            n == jobs@.len(),
            r@.len() == i,
            forall|j: int| 0 <= j < i ==> r@[j] == (#[trigger] jobs@[j]).id,
        decreases n - i,
    {
        r.push(jobs[i].id);
        i = i + 1;
    }
    r
}

/// A fetched job that the remote service already marks completed is
/// skipped, not reprinted.
pub fn should_process_job(job: &PrintJob) -> (r: bool)
    ensures
        r == !job.is_completed,
{
    !job.is_completed
}

/// Which fetched jobs a poll cycle hands to the lifecycle tracker: those
/// not yet completed and not already in flight, in response order.
pub open spec fn eligible_model(jobs: Seq<PrintJob>, reg: Seq<InFlightJobView>) -> Seq<u32>
    decreases jobs.len(),
{
    if jobs.len() == 0 {
        Seq::empty()
    } else {
        let rest = eligible_model(jobs.drop_last(), reg);
        let j = jobs.last();
        if !j.is_completed && !contains_job(reg, j.id) {
            rest.push(j.id)
        } else {
            rest
        }
    }
}

/// Select the jobs a poll cycle submits; see `eligible_model`.
pub fn eligible_job_ids(jobs: &Vec<PrintJob>, reg: &InFlightRegistry) -> (r: Vec<u32>)
    ensures
        r@ == eligible_model(jobs@, reg@),
{
    let n = jobs.len();
    let mut r: Vec<u32> = Vec::new();
    let mut i: usize = 0;
    proof {
        assert(jobs@.take(0) =~= Seq::<PrintJob>::empty());
        assert(r@ =~= Seq::<u32>::empty());
    }
    while i < n
        invariant
            i <= n,
            n == jobs@.len(),
            r@ == eligible_model(jobs@.take(i as int), reg@),
        decreases n - i,
    {
        let ghost prefix = jobs@.take(i as int);
        let ghost next = jobs@.take(i + 1 as int);
        proof {
            assert(next.drop_last() =~= prefix);
            assert(next.last() == jobs@[i as int]);
        }
        let j = &jobs[i];
        if !j.is_completed && !reg.contains_id(j.id) {
            r.push(j.id);
        }
        i = i + 1;
    }
    proof {
        assert(jobs@.take(n as int) =~= jobs@);
    }
    r
}

/// The local queue a job is addressed to: the printer relationship
/// embedded in the job resolves through the synced map by remote id, and
/// falls back to the embedded display name; a bare remote printer id
/// resolves through the synced map alone.
pub open spec fn spec_resolve_target(job: PrintJob, synced: Seq<crate::models::PrinterView>) -> Option<
    Seq<char>,
> {
    match job.printer {
        Some(jp) => match find_remote_id(synced, jp.id) {
            Some(q) => Some(q.stable_id),
            None => Some(jp.name@),
        },
        None => match job.printer_id {
            Some(id) => match find_remote_id(synced, id) {
                Some(q) => Some(q.stable_id),
                None => None,
            },
            None => None,
        },
    }
}

/// Resolve where a job asks to print; see `spec_resolve_target`.
pub fn resolve_target_printer(job: &PrintJob, synced: &PrinterMap) -> (r: Option<String>)
    ensures
        r.deep_view() == spec_resolve_target(*job, synced@),
{
    match &job.printer {
        Some(jp) => match synced.get_by_remote_id(jp.id) {
            Some(q) => Some(q.stable_id.clone()),
            None => Some(jp.name.clone()),
        },
        None => match job.printer_id {
            Some(id) => match synced.get_by_remote_id(id) {
                Some(q) => Some(q.stable_id.clone()),
                None => None,
            },
            None => None,
        },
    }
}

/// Where a job actually prints: the requested queue when it is among the
/// available ones, else the first available queue.
pub open spec fn spec_choose_printer(
    requested: Option<Seq<char>>,
    available: Seq<Seq<char>>,
) -> Option<Seq<char>> {
    if available.len() == 0 {
        None
    } else {
        match requested {
            Some(q) => if available.contains(q) {
                Some(q)
            } else {
                Some(available[0])
            },
            None => Some(available[0]),
        }
    }
}

/// Pick the queue a job is submitted to: the requested printer when the
/// spooler still has it, else the first available queue — availability
/// over precision, a job addressed to a vanished printer still prints
/// somewhere. The choice fails exactly when no local printer exists.
pub fn choose_submission_printer(requested: &Option<String>, available: &Vec<String>) -> (r:
    Result<String, SpoolerError>)
    ensures
        match r {
            Ok(name) => Some(name@) == spec_choose_printer(
                requested.deep_view(),
                available.deep_view(),
            ),
            Err(e) => {
                &&& available.deep_view().len() == 0
                &&& e matches SpoolerError::Print(m) && m@ == "no printers available"@
            },
        },
{
    proof {
        assert(available.deep_view().len() == available@.len());
    }
    if available.len() == 0 {
        return Err(SpoolerError::Print("no printers available".to_owned()));
    }
    match requested {
        Some(q) => {
            let n = available.len();
            let mut i: usize = 0;
            while i < n
                invariant
                    i <= n,
                    n == available@.len(),
                    available.deep_view().len() == n,
                    requested.deep_view() == Some(q@),
                    forall|j: int| 0 <= j < i ==> available.deep_view()[j] != q@,
                decreases n - i,
            {
                if available[i].eq(q) {
                    let chosen = available[i].clone();
                    proof {
                        assert(available.deep_view()[i as int] == q@);
                        assert(available.deep_view().contains(q@));
                        assert(chosen@ == q@);
                    }
                    return Ok(chosen);
                }
                i = i + 1;
            }
            proof {
                assert(!available.deep_view().contains(q@));
            }
            Ok(available[0].clone())
        },
        None => Ok(available[0].clone()),
    }
}

/// The Queued status update sent right after a successful submission,
/// carrying the local handle for traceability.
pub fn submission_report(job_id: u32, handle: u64) -> (r: StatusReport)
    ensures
        r@ == (StatusReportView {
            id: job_id,
            is_completed: false,
            status: JobStatus::Queued,
            cups_job_id: Some(handle),
            error_message: None,
        }),
{
    StatusReport {
        id: job_id,
        is_completed: false,
        status: JobStatus::Queued,
        cups_job_id: Some(handle),
        error_message: None,
    }
}

/// The lifecycle status a restarted agent resumes a remote job under.
pub open spec fn spec_resume_status(status: Option<String>) -> JobStatus {
    match status {
        Some(s) => if s@ == "processing"@ {
            JobStatus::Processing
        } else {
            JobStatus::Queued
        },
        None => JobStatus::Queued,
    }
}

/// The queue name a resumed job is tracked under.
pub open spec fn spec_resume_printer(job: PrintJob) -> Seq<char> {
    match job.printer {
        Some(jp) => jp.name@,
        None => Seq::empty(),
    }
}

/// The registry a restarted agent starts from: one entry per remote job
/// still under way with a known local handle, first occurrence per id.
pub open spec fn repopulate_model(jobs: Seq<PrintJob>, now: u64) -> Seq<InFlightJobView>
    decreases jobs.len(),
{
    if jobs.len() == 0 {
        Seq::empty()
    } else {
        let rest = repopulate_model(jobs.drop_last(), now);
        let j = jobs.last();
        if !j.is_completed && j.cups_job_id is Some && !contains_job(rest, j.id) {
            rest.push(
                InFlightJobView {
                    job_id: j.id,
                    local_job_handle: j.cups_job_id,
                    printer_stable_id: spec_resume_printer(j),
                    submitted_at: now,
                    last_reported_status: spec_resume_status(j.status),
                },
            )
        } else {
            rest
        }
    }
}

impl InFlightRegistry {
    /// Add an entry for a job not tracked yet.
    fn push_entry(&mut self, e: InFlightJob)
        requires
            !contains_job(old(self)@, e@.job_id),
        ensures
            final(self)@ == old(self)@.push(e@),
    {
        let ghost prev = self@;
        let ghost ev = e@;
        self.entries.push(e);
        proof {
            assert(self@ =~= prev.push(ev));
        }
    }

    /// Rebuild the registry after a restart from the remote service's own
    /// record of jobs still under way with a known local handle, so that
    /// a process restart orphans no job mid-flight.
    pub fn repopulate(jobs: &Vec<PrintJob>, now: u64) -> (r: InFlightRegistry)
        ensures
            r@ == repopulate_model(jobs@, now),
            r.wf(),
    {
        let n = jobs.len();
        let mut r = InFlightRegistry::new();
        let mut i: usize = 0;
        proof {
            assert(jobs@.take(0) =~= Seq::<PrintJob>::empty());
        }
        while i < n
            invariant
                i <= n,
                n == jobs@.len(),
                r@ == repopulate_model(jobs@.take(i as int), now),
                r.wf(),
            decreases n - i,
        {
            let ghost prefix = jobs@.take(i as int);
            let ghost next = jobs@.take(i + 1 as int);
            proof {
                assert(next.drop_last() =~= prefix);
                assert(next.last() == jobs@[i as int]);
            }
            let j = &jobs[i];
            let handle: Option<u64> = j.cups_job_id;
            if !j.is_completed && handle.is_some() && !r.contains_id(j.id) {
                let resumed_status: JobStatus = match &j.status {
                    Some(s) => {
                        if s.eq(&"processing".to_owned()) {
                            JobStatus::Processing
                        } else {
                            JobStatus::Queued
                        }
                    },
                    None => JobStatus::Queued,
                };
                let printer: String = match &j.printer {
                    Some(jp) => jp.name.clone(),
                    None => String::new(),
                };
                let entry = InFlightJob {
                    job_id: j.id,
                    local_job_handle: handle,
                    printer_stable_id: printer,
                    submitted_at: now,
                    last_reported_status: resumed_status,
                };
                proof {
                    lemma_registry_wf_push(r@, entry@);
                }
                r.push_entry(entry);
            }
            i = i + 1;
        }
        proof {
            assert(jobs@.take(n as int) =~= jobs@);
        }
        r
    }
}

} // verus!
