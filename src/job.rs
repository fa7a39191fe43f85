//! The lifecycle of one execution job in its own ephemeral container, as a
//! state machine: the service performs each action it returns and feeds
//! back what came of it.
//!
//! Created → Started → Exited → LogsCollected → Destroyed → (Uploaded | Skipped):
//! every container that was created is removed, whichever step failed.
use vstd::prelude::*;
use crate::language::{Language, image_of};
use crate::container::{ContainerSpec, container_spec, container_name, container_name_of, spec_for};
use crate::decoder::{StreamEvent, EventView, events_view, decode_chunk, decode_spec, utf8_lossy};
use crate::trace::{trace_envelope, envelope_of};

verus! {

/// Where a job stands.
#[derive(Clone, Copy, Debug, PartialEq, Eq, Structural)]
pub enum Phase {
    Idle,
    Inspecting,
    Rechecking,
    Building,
    Creating,
    Starting,
    Waiting,
    Collecting,
    Removing,
    Uploading,
    Done,
}

/// Why a job failed.
#[derive(Debug)]
pub enum JobError {
    /// The runtime image could not be provided.
    Image(String),
    /// The container could not be created.
    Create(String),
    /// The container could not be started (it has been removed).
    Start(String),
    /// The program ran but its trace could not be handed to the store.
    Upload(String),
}

pub enum JobErrorView {
    Image(Seq<char>),
    Create(Seq<char>),
    Start(Seq<char>),
    Upload(Seq<char>),
}

impl View for JobError {
    type V = JobErrorView;

    open spec fn view(&self) -> JobErrorView {
        match self {
            JobError::Image(m) => JobErrorView::Image(m@),
            JobError::Create(m) => JobErrorView::Create(m@),
            JobError::Start(m) => JobErrorView::Start(m@),
            JobError::Upload(m) => JobErrorView::Upload(m@),
        }
    }
}

pub open spec fn error_message_of(e: JobErrorView) -> Seq<char> {
    match e {
        JobErrorView::Image(m) => m,
        JobErrorView::Create(m) => "Failed to create container: "@ + m,
        JobErrorView::Start(m) => "Failed to start container: "@ + m,
        JobErrorView::Upload(m) => "Trace upload failed: "@ + m,
    }
}

impl JobError {
    /// The text reported to the caller.
    pub fn message(&self) -> (r: String)
        ensures
            r@ == error_message_of(self@),
    {
        match self {
            JobError::Image(m) => m.clone(),
            JobError::Create(m) => {
                let mut s = "Failed to create container: ".to_string();
                s.append(m.as_str());
                s
            },
            JobError::Start(m) => {
                let mut s = "Failed to start container: ".to_string();
                s.append(m.as_str());
                s
            },
            JobError::Upload(m) => {
                let mut s = "Trace upload failed: ".to_string();
                s.append(m.as_str());
                s
            },
        }
    }
}

/// What came of the last action.
pub enum JobEvent {
    Begin,
    ImageChecked { present: bool },
    /// The second check, made while holding the language's build lock.
    ImageRechecked { present: bool },
    ImageBuilt { result: Result<(), String> },
    Created { container: Result<String, String> },
    Started { result: Result<(), String> },
    /// The wait for the container's exit ended: its exit code, or `None`
    /// where the wait itself failed.
    Exited { code: Option<i64> },
    LogChunk { bytes: Vec<u8> },
    LogError { message: String },
    LogsEnd,
    Removed { result: Result<(), String> },
    Uploaded { result: Result<(), String> },
}

pub enum JobEventView {
    Begin,
    ImageChecked(bool),
    ImageRechecked(bool),
    ImageBuilt(Result<(), Seq<char>>),
    Created(Result<Seq<char>, Seq<char>>),
    Started(Result<(), Seq<char>>),
    Exited,
    LogChunk(Seq<u8>),
    LogError,
    LogsEnd,
    Removed,
    Uploaded(Result<(), Seq<char>>),
}

pub open spec fn unit_result_view(r: Result<(), String>) -> Result<(), Seq<char>> {
    match r {
        Ok(_) => Ok(()),
        Err(e) => Err(e@),
    }
}

impl View for JobEvent {
    type V = JobEventView;

    open spec fn view(&self) -> JobEventView {
        match self {
            JobEvent::Begin => JobEventView::Begin,
            JobEvent::ImageChecked { present } => JobEventView::ImageChecked(*present),
            JobEvent::ImageRechecked { present } => JobEventView::ImageRechecked(*present),
            JobEvent::ImageBuilt { result } => JobEventView::ImageBuilt(unit_result_view(*result)),
            JobEvent::Created { container } => JobEventView::Created(
                match container {
                    Ok(id) => Ok(id@),
                    Err(e) => Err(e@),
                },
            ),
            JobEvent::Started { result } => JobEventView::Started(unit_result_view(*result)),
            JobEvent::Exited { .. } => JobEventView::Exited,
            JobEvent::LogChunk { bytes } => JobEventView::LogChunk(bytes@),
            JobEvent::LogError { .. } => JobEventView::LogError,
            JobEvent::LogsEnd => JobEventView::LogsEnd,
            JobEvent::Removed { .. } => JobEventView::Removed,
            JobEvent::Uploaded { result } => JobEventView::Uploaded(unit_result_view(*result)),
        }
    }
}

/// What the service is to do next.
pub enum JobAction {
    InspectImage { image: String },
    /// Take the language's build lock, hold it until the image is ready,
    /// and check for the image again: a concurrent job may have built it.
    RecheckImage { language: Language },
    BuildImage { language: Language },
    CreateContainer { name: String, spec: ContainerSpec },
    StartContainer { id: String },
    WaitContainer { id: String },
    ReadLogs { id: String },
    RemoveContainer { id: String },
    UploadTrace { job_id: String, body: String },
    /// The job is over: its id, or why it failed.
    Finish { result: Result<String, JobError> },
    /// The event did not answer the pending action; nothing to do.
    Ignore,
}

pub enum ActionView {
    InspectImage(Seq<char>),
    RecheckImage(Language),
    BuildImage(Language),
    CreateContainer(Seq<char>),
    StartContainer(Seq<char>),
    WaitContainer(Seq<char>),
    ReadLogs(Seq<char>),
    RemoveContainer(Seq<char>),
    UploadTrace(Seq<char>, Seq<char>),
    Finish(Result<Seq<char>, JobErrorView>),
    Ignore,
}

impl View for JobAction {
    type V = ActionView;

    open spec fn view(&self) -> ActionView {
        match self {
            JobAction::InspectImage { image } => ActionView::InspectImage(image@),
            JobAction::RecheckImage { language } => ActionView::RecheckImage(*language),
            JobAction::BuildImage { language } => ActionView::BuildImage(*language),
            JobAction::CreateContainer { name, .. } => ActionView::CreateContainer(name@),
            JobAction::StartContainer { id } => ActionView::StartContainer(id@),
            JobAction::WaitContainer { id } => ActionView::WaitContainer(id@),
            JobAction::ReadLogs { id } => ActionView::ReadLogs(id@),
            JobAction::RemoveContainer { id } => ActionView::RemoveContainer(id@),
            JobAction::UploadTrace { job_id, body } => ActionView::UploadTrace(job_id@, body@),
            JobAction::Finish { result } => ActionView::Finish(
                match result {
                    Ok(id) => Ok(id@),
                    Err(e) => Err(e@),
                },
            ),
            JobAction::Ignore => ActionView::Ignore,
        }
    }
}

/// The model of a job: what it is, where it stands, what it has gathered,
/// and how many runtime calls of each kind it has asked for.
pub struct JobView {
    pub id: Seq<char>,
    pub language: Language,
    pub code: Seq<char>,
    pub phase: Phase,
    pub container: Option<Seq<char>>,
    pub events: Seq<EventView>,
    pub failure: Option<JobErrorView>,
    pub inspects: nat,
    pub builds: nat,
    pub creates: nat,
    pub removes: nat,
    pub uploads: nat,
}

/// A fresh job, before its first action.
pub open spec fn fresh(id: Seq<char>, language: Language, code: Seq<char>) -> JobView {
    JobView {
        id,
        language,
        code,
        phase: Phase::Idle,
        container: None,
        events: Seq::empty(),
        failure: None,
        inspects: 0,
        builds: 0,
        creates: 0,
        removes: 0,
        uploads: 0,
    }
}

/// The state after event `e`.
pub open spec fn next(v: JobView, e: JobEventView) -> JobView {
    match (v.phase, e) {
        (Phase::Idle, JobEventView::Begin) => JobView {
            phase: Phase::Inspecting,
            inspects: v.inspects + 1,
            ..v
        },
        (Phase::Inspecting, JobEventView::ImageChecked(present)) => if present {
            JobView { phase: Phase::Creating, ..v }
        } else {
            JobView { phase: Phase::Rechecking, inspects: v.inspects + 1, ..v }
        },
        (Phase::Rechecking, JobEventView::ImageRechecked(present)) => if present {
            JobView { phase: Phase::Creating, ..v }
        } else {
            JobView { phase: Phase::Building, builds: v.builds + 1, ..v }
        },
        (Phase::Building, JobEventView::ImageBuilt(r)) => match r {
            Ok(_) => JobView { phase: Phase::Creating, ..v },
            Err(m) => JobView {
                phase: Phase::Done,
                failure: Some(JobErrorView::Image(m)),
                ..v
            },
        },
        (Phase::Creating, JobEventView::Created(r)) => match r {
            Ok(id) => JobView {
                phase: Phase::Starting,
                container: Some(id),
                creates: v.creates + 1,
                ..v
            },
            Err(m) => JobView {
                phase: Phase::Done,
                failure: Some(JobErrorView::Create(m)),
                ..v
            },
        },
        (Phase::Starting, JobEventView::Started(r)) => match r {
            Ok(_) => JobView { phase: Phase::Waiting, ..v },
            Err(m) => JobView {
                phase: Phase::Removing,
                failure: Some(JobErrorView::Start(m)),
                removes: v.removes + 1,
                ..v
            },
        },
        (Phase::Waiting, JobEventView::Exited) => JobView { phase: Phase::Collecting, ..v },
        (Phase::Collecting, JobEventView::LogChunk(b)) => JobView {
            events: v.events + decode_spec(utf8_lossy(b)),
            ..v
        },
        (Phase::Collecting, JobEventView::LogError) => v,
        (Phase::Collecting, JobEventView::LogsEnd) => JobView {
            phase: Phase::Removing,
            removes: v.removes + 1,
            ..v
        },
        (Phase::Removing, JobEventView::Removed) => if v.failure is None && v.events.len() > 0 {
            JobView { phase: Phase::Uploading, uploads: v.uploads + 1, ..v }
        } else {
            JobView { phase: Phase::Done, ..v }
        },
        (Phase::Uploading, JobEventView::Uploaded(r)) => match r {
            Ok(_) => JobView { phase: Phase::Done, ..v },
            Err(m) => JobView {
                phase: Phase::Done,
                failure: Some(JobErrorView::Upload(m)),
                ..v
            },
        },
        _ => v,
    }
}

/// The action asked for after event `e`.
pub open spec fn action_of(v: JobView, e: JobEventView) -> ActionView {
    let w = next(v, e);
    let cid = v.container.unwrap_or(Seq::empty());
    match (v.phase, e) {
        (Phase::Idle, JobEventView::Begin) => ActionView::InspectImage(image_of(v.language)),
        (Phase::Inspecting, JobEventView::ImageChecked(present)) => if present {
            ActionView::CreateContainer(container_name_of(v.id))
        } else {
            ActionView::RecheckImage(v.language)
        },
        (Phase::Rechecking, JobEventView::ImageRechecked(present)) => if present {
            ActionView::CreateContainer(container_name_of(v.id))
        } else {
            ActionView::BuildImage(v.language)
        },
        (Phase::Building, JobEventView::ImageBuilt(r)) => match r {
            Ok(_) => ActionView::CreateContainer(container_name_of(v.id)),
            Err(m) => ActionView::Finish(Err(JobErrorView::Image(m))),
        },
        (Phase::Creating, JobEventView::Created(r)) => match r {
            Ok(id) => ActionView::StartContainer(id),
            Err(m) => ActionView::Finish(Err(JobErrorView::Create(m))),
        },
        (Phase::Starting, JobEventView::Started(r)) => match r {
            Ok(_) => ActionView::WaitContainer(cid),
            Err(_) => ActionView::RemoveContainer(cid),
        },
        (Phase::Waiting, JobEventView::Exited) => ActionView::ReadLogs(cid),
        (Phase::Collecting, JobEventView::LogChunk(_)) => ActionView::ReadLogs(cid),
        (Phase::Collecting, JobEventView::LogError) => ActionView::ReadLogs(cid),
        (Phase::Collecting, JobEventView::LogsEnd) => ActionView::RemoveContainer(cid),
        (Phase::Removing, JobEventView::Removed) => match v.failure {
            Some(f) => ActionView::Finish(Err(f)),
            None => if v.events.len() > 0 {
                ActionView::UploadTrace(v.id, envelope_of(v.id, v.events))
            } else {
                ActionView::Finish(Ok(v.id))
            },
        },
        (Phase::Uploading, JobEventView::Uploaded(r)) => match r {
            Ok(_) => ActionView::Finish(Ok(v.id)),
            Err(m) => ActionView::Finish(Err(JobErrorView::Upload(m))),
        },
        _ => ActionView::Ignore,
    }
}

/// The state after a sequence of events.
pub open spec fn run(v: JobView, es: Seq<JobEventView>) -> JobView
    decreases es.len(),
{
    if es.len() == 0 {
        v
    } else {
        run(next(v, es[0]), es.drop_first())
    }
}

/// The bookkeeping that every reachable state keeps: at most two image
/// checks and one build, at most one container, removed at most once, and a
/// container between creation and removal exactly while the job is in one
/// of the phases that use it.
pub open spec fn counts_ok(v: JobView) -> bool {
    &&& v.inspects <= 2
    &&& v.builds <= 1
    &&& (v.builds == 1 ==> v.inspects == 2)
    &&& v.removes <= v.creates <= 1
    &&& v.uploads <= v.removes
    &&& (v.phase == Phase::Idle <==> v.inspects == 0)
    &&& (v.phase == Phase::Idle || v.phase == Phase::Inspecting || v.phase == Phase::Rechecking
        || v.phase == Phase::Building || v.phase == Phase::Creating ==> v.creates == 0 && v.uploads
        == 0 && v.failure is None)
    &&& (v.phase == Phase::Inspecting ==> v.inspects == 1 && v.builds == 0)
    &&& (v.phase == Phase::Rechecking ==> v.inspects == 2 && v.builds == 0)
    &&& (v.phase == Phase::Starting || v.phase == Phase::Waiting || v.phase == Phase::Collecting
        ==> v.creates == 1 && v.removes == 0 && v.container is Some && v.failure is None)
    &&& (v.phase == Phase::Removing ==> v.creates == 1 && v.removes == 1 && v.uploads == 0
        && v.container is Some)
    &&& (v.phase == Phase::Uploading ==> v.creates == 1 && v.removes == 1 && v.uploads == 1
        && v.failure is None)
    &&& (v.phase == Phase::Done ==> v.creates == v.removes)
}

/// A job whose model is `v`.
pub struct Job {
    id: String,
    language: Language,
    code: String,
    phase: Phase,
    container: Option<String>,
    events: Vec<StreamEvent>,
    failure: Option<JobError>,
    inspects: Ghost<nat>,
    builds: Ghost<nat>,
    creates: Ghost<nat>,
    removes: Ghost<nat>,
    uploads: Ghost<nat>,
}

impl View for Job {
    type V = JobView;

    closed spec fn view(&self) -> JobView {
        JobView {
            id: self.id@,
            language: self.language,
            code: self.code@,
            phase: self.phase,
            container: match self.container {
                Some(c) => Some(c@),
                None => None,
            },
            events: events_view(self.events@),
            failure: match self.failure {
                Some(f) => Some(f@),
                None => None,
            },
            inspects: self.inspects@,
            builds: self.builds@,
            creates: self.creates@,
            removes: self.removes@,
            uploads: self.uploads@,
        }
    }
}

impl Job {
    /// A job with id `id` that runs `code` written in `language`.
    pub fn new(id: String, language: Language, code: String) -> (r: Job)
        ensures
            r@ == fresh(id@, language, code@),
    {
        let r = Job {
            id,
            language,
            code,
            phase: Phase::Idle,
            container: None,
            events: Vec::new(),
            failure: None,
            inspects: Ghost(0),
            builds: Ghost(0),
            creates: Ghost(0),
            removes: Ghost(0),
            uploads: Ghost(0),
        };
        assert(r@.events =~= Seq::<EventView>::empty());
        r
    }

    pub fn phase(&self) -> (r: Phase)
        ensures
            r == self@.phase,
    {
        self.phase
    }

    /// The job's id.
    pub fn id(&self) -> (r: &str)
        ensures
            r@ == self@.id,
    {
        self.id.as_str()
    }

    /// Takes in what came of the last action and says what to do next.
    /// A container is created with the job's language, code and the
    /// resource policy.
    pub fn step(&mut self, e: JobEvent) -> (a: JobAction)
        ensures
            final(self)@ == next(old(self)@, e@),
            a@ == action_of(old(self)@, e@),
            a matches JobAction::CreateContainer { spec, .. } ==> spec_for(
                spec,
                old(self)@.language,
                old(self)@.code,
            ),
    {
        let ghost v = self@;
        match (self.phase, e) {
            (Phase::Idle, JobEvent::Begin) => {
                self.phase = Phase::Inspecting;
                self.inspects = Ghost(self.inspects@ + 1);
                JobAction::InspectImage { image: self.language.image_name().to_string() }
            },
            (Phase::Inspecting, JobEvent::ImageChecked { present }) => {
                if present {
                    self.phase = Phase::Creating;
                    self.create_action()
                } else {
                    self.phase = Phase::Rechecking;
                    self.inspects = Ghost(self.inspects@ + 1);
                    JobAction::RecheckImage { language: self.language }
                }
            },
            (Phase::Rechecking, JobEvent::ImageRechecked { present }) => {
                if present {
                    self.phase = Phase::Creating;
                    self.create_action()
                } else {
                    self.phase = Phase::Building;
                    self.builds = Ghost(self.builds@ + 1);
                    JobAction::BuildImage { language: self.language }
                }
            },
            (Phase::Building, JobEvent::ImageBuilt { result }) => match result {
                Ok(_) => {
                    self.phase = Phase::Creating;
                    self.create_action()
                },
                Err(m) => {
                    self.phase = Phase::Done;
                    self.failure = Some(JobError::Image(m.clone()));
                    JobAction::Finish { result: Err(JobError::Image(m)) }
                },
            },
            (Phase::Creating, JobEvent::Created { container }) => match container {
                Ok(id) => {
                    self.phase = Phase::Starting;
                    self.container = Some(id.clone());
                    self.creates = Ghost(self.creates@ + 1);
                    JobAction::StartContainer { id }
                },
                Err(m) => {
                    self.phase = Phase::Done;
                    self.failure = Some(JobError::Create(m.clone()));
                    JobAction::Finish { result: Err(JobError::Create(m)) }
                },
            },
            (Phase::Starting, JobEvent::Started { result }) => match result {
                Ok(_) => {
                    self.phase = Phase::Waiting;
                    JobAction::WaitContainer { id: self.container_id() }
                },
                Err(m) => {
                    self.phase = Phase::Removing;
                    self.failure = Some(JobError::Start(m));
                    self.removes = Ghost(self.removes@ + 1);
                    JobAction::RemoveContainer { id: self.container_id() }
                },
            },
            (Phase::Waiting, JobEvent::Exited { .. }) => {
                self.phase = Phase::Collecting;
                JobAction::ReadLogs { id: self.container_id() }
            },
            (Phase::Collecting, JobEvent::LogChunk { bytes }) => {
                let mut decoded = decode_chunk(bytes.as_slice());
                let ghost before = self.events@;
                let ghost added = decoded@;
                self.events.append(&mut decoded);
                proof {
                    assert(events_view(self.events@) =~= events_view(before) + events_view(added));
                }
                JobAction::ReadLogs { id: self.container_id() }
            },
            (Phase::Collecting, JobEvent::LogError { .. }) => {
                JobAction::ReadLogs { id: self.container_id() }
            },
            (Phase::Collecting, JobEvent::LogsEnd) => {
                self.phase = Phase::Removing;
                self.removes = Ghost(self.removes@ + 1);
                JobAction::RemoveContainer { id: self.container_id() }
            },
            (Phase::Removing, JobEvent::Removed { .. }) => {
                match &self.failure {
                    Some(f) => {
                        let r = f.duplicate();
                        self.phase = Phase::Done;
                        JobAction::Finish { result: Err(r) }
                    },
                    None => {
                        if self.events.len() > 0 {
                            self.phase = Phase::Uploading;
                            self.uploads = Ghost(self.uploads@ + 1);
                            let body = trace_envelope(self.id.as_str(), &self.events);
                            JobAction::UploadTrace { job_id: self.id.clone(), body }
                        } else {
                            self.phase = Phase::Done;
                            JobAction::Finish { result: Ok(self.id.clone()) }
                        }
                    },
                }
            },
            (Phase::Uploading, JobEvent::Uploaded { result }) => match result {
                Ok(_) => {
                    self.phase = Phase::Done;
                    JobAction::Finish { result: Ok(self.id.clone()) }
                },
                Err(m) => {
                    self.phase = Phase::Done;
                    self.failure = Some(JobError::Upload(m.clone()));
                    JobAction::Finish { result: Err(JobError::Upload(m)) }
                },
            },
            _ => JobAction::Ignore,
        }
    }

    fn create_action(&self) -> (a: JobAction)
        ensures
            a@ == ActionView::CreateContainer(container_name_of(self@.id)),
            a matches JobAction::CreateContainer { spec, .. } ==> spec_for(
                spec,
                self@.language,
                self@.code,
            ),
    {
        JobAction::CreateContainer {
            name: container_name(self.id.as_str()),
            spec: container_spec(self.language, self.code.as_str()),
        }
    }

    fn container_id(&self) -> (r: String)
        ensures
            r@ == self@.container.unwrap_or(Seq::empty()),
    {
        match &self.container {
            Some(c) => c.clone(),
            None => String::new(),
        }
    }
}

/// One step keeps the bookkeeping.
pub proof fn lemma_step_keeps_counts(v: JobView, e: JobEventView)
    requires
        counts_ok(v),
    ensures
        counts_ok(next(v, e)),
{
}

/// Every state reached from one that keeps the bookkeeping keeps it.
pub proof fn lemma_run_keeps_counts(v: JobView, es: Seq<JobEventView>)
    requires
        counts_ok(v),
    ensures
        counts_ok(run(v, es)),
    decreases es.len(),
{
    if es.len() > 0 {
        lemma_step_keeps_counts(v, es[0]);
        lemma_run_keeps_counts(next(v, es[0]), es.drop_first());
    }
}

/// No container is leaked: whatever the runtime answers (a normal or
/// non-zero exit, a failed start, a failed wait, failed log reads, failed
/// removal), once a job is over it has asked to remove exactly as many
/// containers as were created, and at no point is more than one container
/// of it alive.
pub proof fn lemma_no_leaked_container(
    id: Seq<char>,
    language: Language,
    code: Seq<char>,
    es: Seq<JobEventView>,
)
    ensures
        run(fresh(id, language, code), es).phase == Phase::Done ==> run(
            fresh(id, language, code),
            es,
        ).creates == run(fresh(id, language, code), es).removes,
        run(fresh(id, language, code), es).creates <= run(fresh(id, language, code), es).removes
            + 1,
{
    lemma_run_keeps_counts(fresh(id, language, code), es);
}

/// Past provisioning, the image is neither inspected nor built again.
pub proof fn lemma_provisioning_settled(v: JobView, es: Seq<JobEventView>)
    requires
        v.phase != Phase::Idle,
        v.phase != Phase::Inspecting,
        v.phase != Phase::Rechecking,
        v.phase != Phase::Building,
    ensures
        run(v, es).inspects == v.inspects,
        run(v, es).builds == v.builds,
        run(v, es).phase != Phase::Idle,
        run(v, es).phase != Phase::Inspecting,
        run(v, es).phase != Phase::Rechecking,
        run(v, es).phase != Phase::Building,
    decreases es.len(),
{
    if es.len() > 0 {
        lemma_provisioning_settled(next(v, es[0]), es.drop_first());
    }
}

/// Provisioning an image that is already present costs one existence check
/// and no build, on every job, whatever happens afterwards: doing it again
/// for the next job does the same.
pub proof fn lemma_present_image_not_built(
    id: Seq<char>,
    language: Language,
    code: Seq<char>,
    es: Seq<JobEventView>,
)
    ensures
        ({
            let checked = next(
                next(fresh(id, language, code), JobEventView::Begin),
                JobEventView::ImageChecked(true),
            );
            &&& action_of(fresh(id, language, code), JobEventView::Begin)
                == ActionView::InspectImage(image_of(language))
            &&& action_of(
                next(fresh(id, language, code), JobEventView::Begin),
                JobEventView::ImageChecked(true),
            ) == ActionView::CreateContainer(container_name_of(id))
            &&& run(checked, es).inspects == 1
            &&& run(checked, es).builds == 0
        }),
{
    let checked = next(
        next(fresh(id, language, code), JobEventView::Begin),
        JobEventView::ImageChecked(true),
    );
    lemma_provisioning_settled(checked, es);
}

/// The two models agree on everything but the job id.
pub open spec fn same_but_id(v1: JobView, v2: JobView) -> bool {
    JobView { id: v2.id, ..v1 } == v2
}

/// What a job collects depends only on its language, its code and what the
/// runtime answers, not on its id: two jobs fed the same answers issue the
/// same runtime calls and end with the same trace and the same outcome.
pub proof fn lemma_trace_determined(v1: JobView, v2: JobView, es: Seq<JobEventView>)
    requires
        same_but_id(v1, v2),
    ensures
        same_but_id(run(v1, es), run(v2, es)),
        run(v1, es).events == run(v2, es).events,
        run(v1, es).phase == run(v2, es).phase,
        run(v1, es).failure == run(v2, es).failure,
    decreases es.len(),
{
    if es.len() > 0 {
        assert(same_but_id(next(v1, es[0]), next(v2, es[0])));
        lemma_trace_determined(next(v1, es[0]), next(v2, es[0]), es.drop_first());
    }
}

impl JobError {
    /// A copy of this error.
    pub fn duplicate(&self) -> (r: JobError)
        ensures
            r@ == self@,
    {
        match self {
            JobError::Image(m) => JobError::Image(m.clone()),
            JobError::Create(m) => JobError::Create(m.clone()),
            JobError::Start(m) => JobError::Start(m.clone()),
            JobError::Upload(m) => JobError::Upload(m.clone()),
        }
    }
}

} // verus!
