//! The publish protocol. Stale floating tags are deleted first; when every
//! delete has settled, the manifest is stored under every tag. The protocol
//! is a state machine: a driver sends the requests that a command names,
//! and hands each response back as an event.

use crate::business::tag_list;
use crate::config::{Tag, TagView};
use crate::registry::{
    id_list, DeleteOutcome, DeleteOutcomeView, Image, ImageId, ImageIdView, ImageView, PutOutcome,
    PutOutcomeView,
};
use crate::text::texts_of;
use vstd::prelude::*;

verus! {

/// Why a publish was given up.
#[derive(PartialEq, Eq, Debug)]
pub enum PublishError {
    /// The registry reported a failure that is not tolerated.
    Registry(String),
    /// The registry reported a stored image without its identifier.
    MissingImageId,
    /// The registry reported an image without its tag.
    MissingTag,
    /// The registry reported an image without its digest.
    MissingDigest,
}

/// The mathematical value of a `PublishError`.
pub enum PublishErrorView {
    Registry(Seq<char>),
    MissingImageId,
    MissingTag,
    MissingDigest,
}

impl View for PublishError {
    type V = PublishErrorView;

    open spec fn view(&self) -> PublishErrorView {
        match self {
            PublishError::Registry(message) => PublishErrorView::Registry(message@),
            PublishError::MissingImageId => PublishErrorView::MissingImageId,
            PublishError::MissingTag => PublishErrorView::MissingTag,
            PublishError::MissingDigest => PublishErrorView::MissingDigest,
        }
    }
}

/// Something for the driver to log.
#[derive(PartialEq, Eq, Debug)]
pub enum Record {
    /// The image with this digest lost this tag.
    Deleted { tag: String, digest: String },
    /// The image with this digest got this tag.
    Added { tag: String, digest: String },
    /// A tag was left as it is, because an image exists under it already.
    Kept { message: String },
}

/// The mathematical value of a `Record`.
pub enum RecordView {
    Deleted { tag: Seq<char>, digest: Seq<char> },
    Added { tag: Seq<char>, digest: Seq<char> },
    Kept { message: Seq<char> },
}

impl View for Record {
    type V = RecordView;

    open spec fn view(&self) -> RecordView {
        match self {
            Record::Deleted { tag, digest } => RecordView::Deleted { tag: tag@, digest: digest@ },
            Record::Added { tag, digest } => RecordView::Added { tag: tag@, digest: digest@ },
            Record::Kept { message } => RecordView::Kept { message: message@ },
        }
    }
}

/// The mathematical value of a list of records.
pub open spec fn record_list(records: Seq<Record>) -> Seq<RecordView> {
    records.map_values(|record: Record| record@)
}

/// How one response was judged: what to log, and the fault that ends the
/// publish, if there is one.
#[derive(PartialEq, Eq, Debug)]
pub struct Verdict {
    pub records: Vec<Record>,
    pub fault: Option<PublishError>,
}

/// The mathematical value of a `Verdict`.
pub struct VerdictView {
    pub records: Seq<RecordView>,
    pub fault: Option<PublishErrorView>,
}

/// The mathematical value of an optional error.
pub open spec fn fault_of(fault: Option<PublishError>) -> Option<PublishErrorView> {
    match fault {
        Some(error) => Some(error@),
        None => None,
    }
}

impl View for Verdict {
    type V = VerdictView;

    open spec fn view(&self) -> VerdictView {
        VerdictView { records: record_list(self.records@), fault: fault_of(self.fault) }
    }
}

impl ImageIdView {
    /// Whether both the tag and the digest are there.
    pub open spec fn complete(self) -> bool {
        self.tag is Some && self.digest is Some
    }

    /// What an incomplete identifier lacks; the tag is looked at first.
    pub open spec fn fault(self) -> PublishErrorView {
        if self.tag is None {
            PublishErrorView::MissingTag
        } else {
            PublishErrorView::MissingDigest
        }
    }
}

/// How many identifiers in front of the list are complete.
pub open spec fn complete_prefix(ids: Seq<ImageIdView>) -> nat
    decreases ids.len(),
{
    if ids.len() == 0 || !ids.first().complete() {
        0
    } else {
        1 + complete_prefix(ids.drop_first())
    }
}

/// The number `k` is the length of the complete prefix if and only if the
/// first `k` identifiers are complete and the next one, if any, is not.
pub proof fn lemma_complete_prefix(ids: Seq<ImageIdView>, k: int)
    requires
        0 <= k <= ids.len(),
        forall|j: int| 0 <= j < k ==> (#[trigger] ids[j]).complete(),
        k < ids.len() ==> !ids[k].complete(),
    ensures
        complete_prefix(ids) == k,
    decreases k,
{
    if k > 0 {
        let rest = ids.drop_first();
        assert(forall|j: int| 0 <= j < k - 1 ==> (#[trigger] rest[j]).complete());
        lemma_complete_prefix(rest, k - 1);
    }
}

/// The record of one deleted image.
pub open spec fn deleted_record(id: ImageIdView) -> RecordView {
    RecordView::Deleted { tag: id.tag->0, digest: id.digest->0 }
}

/// The records of a list of deleted images.
pub open spec fn deleted_records(ids: Seq<ImageIdView>) -> Seq<RecordView> {
    ids.map_values(|id: ImageIdView| deleted_record(id))
}

/// The verdict on a list of deleted images: one record for each identifier
/// in front of the first incomplete one, and the fault of that one.
pub open spec fn judged_ids(ids: Seq<ImageIdView>) -> VerdictView {
    let k = complete_prefix(ids) as int;
    VerdictView {
        records: deleted_records(ids.take(k)),
        fault: if k < ids.len() {
            Some(ids[k].fault())
        } else {
            None
        },
    }
}

/// The verdict on the answer to a delete: a missing tag is as good as a
/// deleted one; any other failure ends the publish.
pub open spec fn judged_delete(outcome: DeleteOutcomeView) -> VerdictView {
    match outcome {
        DeleteOutcomeView::Deleted(ids) => judged_ids(ids),
        DeleteOutcomeView::NotFound => VerdictView { records: Seq::empty(), fault: None },
        DeleteOutcomeView::Fatal(message) => VerdictView {
            records: Seq::empty(),
            fault: Some(PublishErrorView::Registry(message)),
        },
    }
}

/// The verdict on the answer to a put: an image that exists already is
/// noted and tolerated; a stored image must be reported in full, if it is
/// reported at all; any other failure ends the publish.
pub open spec fn judged_put(outcome: PutOutcomeView) -> VerdictView {
    match outcome {
        PutOutcomeView::Created(None) => VerdictView { records: Seq::empty(), fault: None },
        PutOutcomeView::Created(Some(image)) => match image.id {
            None => VerdictView {
                records: Seq::empty(),
                fault: Some(PublishErrorView::MissingImageId),
            },
            Some(id) => if id.complete() {
                VerdictView {
                    records: seq![RecordView::Added { tag: id.tag->0, digest: id.digest->0 }],
                    fault: None,
                }
            } else {
                VerdictView { records: Seq::empty(), fault: Some(id.fault()) }
            },
        },
        PutOutcomeView::AlreadyExists(message) => VerdictView {
            records: seq![RecordView::Kept { message }],
            fault: None,
        },
        PutOutcomeView::Fatal(message) => VerdictView {
            records: Seq::empty(),
            fault: Some(PublishErrorView::Registry(message)),
        },
    }
}

/// Judges the answer to a delete.
pub fn judge_delete(outcome: DeleteOutcome) -> (verdict: Verdict)
    ensures
        verdict@ == judged_delete(outcome@),
{
    match outcome {
        DeleteOutcome::NotFound => {
            let verdict = Verdict { records: Vec::new(), fault: None };
            assert(verdict@.records =~= Seq::empty());
            verdict
        },
        DeleteOutcome::Fatal(message) => {
            let verdict = Verdict {
                records: Vec::new(),
                fault: Some(PublishError::Registry(message)),
            };
            assert(verdict@.records =~= Seq::empty());
            verdict
        },
        DeleteOutcome::Deleted(ids) => {
            let ghost all = id_list(ids@);
            let mut records: Vec<Record> = Vec::new();
            let mut fault: Option<PublishError> = None;
            let mut i: usize = 0;
            while i < ids.len()
                invariant_except_break
                    fault is None,
                invariant
                    all == id_list(ids@),
                    i <= ids.len(),
                    forall|j: int| 0 <= j < i ==> (#[trigger] all[j]).complete(),
                    record_list(records@) == deleted_records(all.take(i as int)),
                ensures
                    i < ids.len() ==> !all[i as int].complete() && fault_of(fault) == Some(
                        all[i as int].fault(),
                    ),
                    i == ids.len() ==> fault is None,
                decreases ids.len() - i,
            {
                let id = &ids[i];
                let ghost before = records@;
                match (&id.tag, &id.digest) {
                    (Some(tag), Some(digest)) => {
                        let record = Record::Deleted { tag: tag.clone(), digest: digest.clone() };
                        records.push(record);
                        assert(record_list(records@) =~= record_list(before).push(record@));
                    },
                    (None, _) => {
                        fault = Some(PublishError::MissingTag);
                        break ;
                    },
                    (_, None) => {
                        fault = Some(PublishError::MissingDigest);
                        break ;
                    },
                }
                i += 1;
            }
            proof {
                lemma_complete_prefix(all, i as int);
            }
            Verdict { records, fault }
        },
    }
}

/// Judges the answer to a put.
pub fn judge_put(outcome: PutOutcome) -> (verdict: Verdict)
    ensures
        verdict@ == judged_put(outcome@),
{
    let mut records: Vec<Record> = Vec::new();
    let mut fault: Option<PublishError> = None;
    assert(record_list(records@) =~= Seq::empty());
    match outcome {
        PutOutcome::Created(None) => {},
        PutOutcome::Created(Some(image)) => match image.id {
            None => {
                fault = Some(PublishError::MissingImageId);
            },
            Some(id) => match (id.tag, id.digest) {
                (Some(tag), Some(digest)) => {
                    records.push(Record::Added { tag, digest });
                    assert(record_list(records@) =~= seq![
                        RecordView::Added { tag: tag@, digest: digest@ },
                    ]);
                },
                (None, _) => {
                    fault = Some(PublishError::MissingTag);
                },
                (_, None) => {
                    fault = Some(PublishError::MissingDigest);
                },
            },
        },
        PutOutcome::AlreadyExists(message) => {
            records.push(Record::Kept { message });
            assert(record_list(records@) =~= seq![RecordView::Kept { message: message@ }]);
        },
        PutOutcome::Fatal(message) => {
            fault = Some(PublishError::Registry(message));
        },
    }
    Verdict { records, fault }
}

/// What the driver is to do next.
#[derive(PartialEq, Eq, Debug)]
pub enum Command {
    /// Send a delete for each of these tags, all at once.
    Delete(Vec<String>),
    /// Send a put of the manifest for each of these tags, all at once.
    Put(Vec<String>),
    /// Await the next response.
    Wait,
    /// The publish has succeeded.
    Finish,
    /// The publish has failed: abandon what is in flight and report this.
    Abort(PublishError),
}

/// The mathematical value of a `Command`.
pub enum CommandView {
    Delete(Seq<Seq<char>>),
    Put(Seq<Seq<char>>),
    Wait,
    Finish,
    Abort(PublishErrorView),
}

impl View for Command {
    type V = CommandView;

    open spec fn view(&self) -> CommandView {
        match self {
            Command::Delete(names) => CommandView::Delete(texts_of(names@)),
            Command::Put(names) => CommandView::Put(texts_of(names@)),
            Command::Wait => CommandView::Wait,
            Command::Finish => CommandView::Finish,
            Command::Abort(error) => CommandView::Abort(error@),
        }
    }
}

/// The protocol's answer to one event.
#[derive(PartialEq, Eq, Debug)]
pub struct Step {
    pub records: Vec<Record>,
    pub command: Command,
}

/// The mathematical value of a `Step`.
pub struct StepView {
    pub records: Seq<RecordView>,
    pub command: CommandView,
}

impl View for Step {
    type V = StepView;

    open spec fn view(&self) -> StepView {
        StepView { records: record_list(self.records@), command: self.command@ }
    }
}

/// A response of the registry, as the driver hands it in.
#[derive(PartialEq, Eq, Debug)]
pub enum Event {
    /// One delete has been answered.
    Deleted(DeleteOutcome),
    /// One put has been answered.
    Put(PutOutcome),
}

/// The mathematical value of an `Event`.
pub enum EventView {
    Deleted(DeleteOutcomeView),
    Put(PutOutcomeView),
}

impl View for Event {
    type V = EventView;

    open spec fn view(&self) -> EventView {
        match self {
            Event::Deleted(outcome) => EventView::Deleted(outcome@),
            Event::Put(outcome) => EventView::Put(outcome@),
        }
    }
}

/// Where a publish stands.
#[derive(PartialEq, Eq, Debug)]
pub enum Phase {
    /// Deletes are in flight; this many are unanswered.
    Cleanup(usize),
    /// Puts are in flight; this many are unanswered.
    Publish(usize),
    /// Every tag has been dealt with.
    Done,
    /// The publish was given up for this reason.
    Failed(PublishError),
}

/// The mathematical value of a `Phase`.
pub enum PhaseView {
    Cleanup(nat),
    Publish(nat),
    Done,
    Failed(PublishErrorView),
}

impl View for Phase {
    type V = PhaseView;

    open spec fn view(&self) -> PhaseView {
        match self {
            Phase::Cleanup(n) => PhaseView::Cleanup(*n as nat),
            Phase::Publish(n) => PhaseView::Publish(*n as nat),
            Phase::Done => PhaseView::Done,
            Phase::Failed(error) => PhaseView::Failed(error@),
        }
    }
}

/// The state of one publish: the tags it is for, and where it stands.
#[derive(PartialEq, Eq, Debug)]
pub struct Publisher {
    pub tags: Vec<(String, bool)>,
    pub phase: Phase,
}

/// The mathematical value of a `Publisher`.
pub struct PublisherView {
    pub tags: Seq<(Seq<char>, bool)>,
    pub phase: PhaseView,
}

impl View for Publisher {
    type V = PublisherView;

    open spec fn view(&self) -> PublisherView {
        PublisherView { tags: tag_list(self.tags@), phase: self.phase@ }
    }
}

/// The names of all tags, in order.
pub open spec fn names(tags: Seq<(Seq<char>, bool)>) -> Seq<Seq<char>> {
    tags.map_values(|tag: (Seq<char>, bool)| tag.0)
}

/// The tags that may be moved, in order.
pub open spec fn floating(tags: Seq<(Seq<char>, bool)>) -> Seq<(Seq<char>, bool)> {
    tags.filter(|tag: (Seq<char>, bool)| tag.1)
}

/// The names of the tags that may be moved, in order.
pub open spec fn floating_names(tags: Seq<(Seq<char>, bool)>) -> Seq<Seq<char>> {
    names(floating(tags))
}

/// How the second phase opens: a put for every tag, or the end where there
/// is no tag at all.
pub open spec fn open_publish(tags: Seq<(Seq<char>, bool)>) -> (PhaseView, CommandView) {
    if tags.len() > 0 {
        (PhaseView::Publish(tags.len()), CommandView::Put(names(tags)))
    } else {
        (PhaseView::Done, CommandView::Finish)
    }
}

/// How a publish opens: a delete for every tag that may be moved, or the
/// second phase at once where there is none.
pub open spec fn open_cleanup(tags: Seq<(Seq<char>, bool)>) -> (PhaseView, CommandView) {
    if floating(tags).len() > 0 {
        (PhaseView::Cleanup(floating(tags).len()), CommandView::Delete(floating_names(tags)))
    } else {
        open_publish(tags)
    }
}

/// The command that a phase stands on while nothing new happens.
pub open spec fn standing(phase: PhaseView) -> CommandView {
    match phase {
        PhaseView::Cleanup(_) => CommandView::Wait,
        PhaseView::Publish(_) => CommandView::Wait,
        PhaseView::Done => CommandView::Finish,
        PhaseView::Failed(error) => CommandView::Abort(error),
    }
}

/// The phase and command after a response that was judged, given the phase
/// and command that follow the last response of the running phase.
pub open spec fn settled(
    verdict: VerdictView,
    unanswered: nat,
    fewer: PhaseView,
    after_last: (PhaseView, CommandView),
) -> (PhaseView, CommandView) {
    match verdict.fault {
        Some(error) => (PhaseView::Failed(error), CommandView::Abort(error)),
        None => if unanswered > 1 {
            (fewer, CommandView::Wait)
        } else {
            after_last
        },
    }
}

/// The protocol: the state and the answer that follow a state and an event.
///
/// A fault ends the publish at once. A tolerated answer counts down the
/// running phase; the last answer of the cleanup opens the puts, the last
/// answer of the puts ends the publish. An event that the phase does not
/// await (an answer that arrives after the end, or one of the wrong kind)
/// changes nothing and is answered with the standing command.
pub open spec fn next(state: PublisherView, event: EventView) -> (PublisherView, StepView) {
    match (state.phase, event) {
        (PhaseView::Cleanup(n), EventView::Deleted(outcome)) => {
            let verdict = judged_delete(outcome);
            let (phase, command) = settled(
                verdict,
                n,
                PhaseView::Cleanup((n - 1) as nat),
                open_publish(state.tags),
            );
            (
                PublisherView { tags: state.tags, phase },
                StepView { records: verdict.records, command },
            )
        },
        (PhaseView::Publish(n), EventView::Put(outcome)) => {
            let verdict = judged_put(outcome);
            let (phase, command) = settled(
                verdict,
                n,
                PhaseView::Publish((n - 1) as nat),
                (PhaseView::Done, CommandView::Finish),
            );
            (
                PublisherView { tags: state.tags, phase },
                StepView { records: verdict.records, command },
            )
        },
        _ => (state, StepView { records: Seq::empty(), command: standing(state.phase) }),
    }
}

/// The state and the answer after a request of the running phase has broken
/// down before the registry answered it: the same as after an answer that
/// reports a failure with that message. A publish that has ended stays as it
/// is.
pub open spec fn broken(state: PublisherView, message: Seq<char>) -> (PublisherView, StepView) {
    match state.phase {
        PhaseView::Cleanup(_) => next(
            state,
            EventView::Deleted(DeleteOutcomeView::Fatal(message)),
        ),
        PhaseView::Publish(_) => next(state, EventView::Put(PutOutcomeView::Fatal(message))),
        _ => (state, StepView { records: Seq::empty(), command: standing(state.phase) }),
    }
}

impl PublisherView {
    /// A running phase awaits at least one answer and no more than it has
    /// sent requests.
    pub open spec fn wf(self) -> bool {
        match self.phase {
            PhaseView::Cleanup(n) => 1 <= n <= floating(self.tags).len(),
            PhaseView::Publish(n) => 1 <= n <= self.tags.len(),
            _ => true,
        }
    }
}

fn same_error(error: &PublishError) -> (r: PublishError)
    ensures
        r@ == error@,
{
    match error {
        PublishError::Registry(message) => PublishError::Registry(message.clone()),
        PublishError::MissingImageId => PublishError::MissingImageId,
        PublishError::MissingTag => PublishError::MissingTag,
        PublishError::MissingDigest => PublishError::MissingDigest,
    }
}

/// The names of all tags.
pub fn tag_names(tags: &Vec<(String, bool)>) -> (r: Vec<String>)
    ensures
        texts_of(r@) == names(tag_list(tags@)),
{
    let mut out: Vec<String> = Vec::new();
    let mut i: usize = 0;
    while i < tags.len()
        invariant
            i <= tags.len(),
            texts_of(out@) == names(tag_list(tags@.take(i as int))),
        decreases tags.len() - i,
    {
        out.push(tags[i].0.clone());
        proof {
            assert(names(tag_list(tags@.take(i + 1))) =~= names(
                tag_list(tags@.take(i as int)),
            ).push(tags@[i as int].0@));
        }
        i += 1;
    }
    out
}

/// The names of the tags that may be moved.
pub fn floating_tag_names(tags: &Vec<(String, bool)>) -> (r: Vec<String>)
    ensures
        texts_of(r@) == floating_names(tag_list(tags@)),
        r.len() == floating(tag_list(tags@)).len(),
{
    let mut out: Vec<String> = Vec::new();
    let mut i: usize = 0;
    proof {
        assert(floating(Seq::empty()) =~= Seq::empty()) by {
            reveal(Seq::filter);
        }
    }
    while i < tags.len()
        invariant
            i <= tags.len(),
            texts_of(out@) == floating_names(tag_list(tags@.take(i as int))),
            out.len() == floating(tag_list(tags@.take(i as int))).len(),
        decreases tags.len() - i,
    {
        let ghost seen = tag_list(tags@.take(i as int));
        let ghost tag = (tags@[i as int].0@, tags@[i as int].1);
        proof {
            assert(tag_list(tags@.take(i + 1)) =~= seen.push(tag));
            seen.lemma_filter_push(tag, |tag: (Seq<char>, bool)| tag.1);
        }
        if tags[i].1 {
            out.push(tags[i].0.clone());
            proof {
                assert(floating_names(seen.push(tag)) =~= floating_names(seen).push(tag.0));
            }
        }
        i += 1;
    }
    proof {
        assert(tags@.take(tags.len() as int) =~= tags@);
    }
    out
}

impl Publisher {
    /// Whether this state keeps its invariant.
    pub open spec fn wf(&self) -> bool {
        self@.wf()
    }

    /// Opens a publish for a list of tags, each with the mark that says
    /// whether it may be moved, and gives the first command.
    pub fn start(tags: Vec<(String, bool)>) -> (r: (Publisher, Command))
        ensures
            r.0@.tags == tag_list(tags@),
            (r.0@.phase, r.1@) == open_cleanup(tag_list(tags@)),
            r.0.wf(),
    {
        let doomed = floating_tag_names(&tags);
        if doomed.len() > 0 {
            let n: usize = doomed.len();
            (Publisher { tags, phase: Phase::Cleanup(n) }, Command::Delete(doomed))
        } else if tags.len() > 0 {
            let all = tag_names(&tags);
            let n: usize = tags.len();
            (Publisher { tags, phase: Phase::Publish(n) }, Command::Put(all))
        } else {
            (Publisher { tags, phase: Phase::Done }, Command::Finish)
        }
    }

    /// Takes one event and gives the records to log and the next command.
    pub fn step(&mut self, event: Event) -> (step: Step)
        ensures
            (final(self)@, step@) == next(old(self)@, event@),
            old(self).wf() ==> final(self).wf(),
    {
        let ghost before = self@;
        let (verdict, last, cleanup) = match (&self.phase, event) {
            (Phase::Cleanup(n), Event::Deleted(outcome)) => (judge_delete(outcome), *n <= 1, true),
            (Phase::Publish(n), Event::Put(outcome)) => (judge_put(outcome), *n <= 1, false),
            _ => {
                let command = match &self.phase {
                    Phase::Cleanup(_) => Command::Wait,
                    Phase::Publish(_) => Command::Wait,
                    Phase::Done => Command::Finish,
                    Phase::Failed(error) => Command::Abort(same_error(error)),
                };
                let step = Step { records: Vec::new(), command };
                assert(step@.records =~= Seq::empty());
                return step;
            },
        };
        let Verdict { records, fault } = verdict;
        let command = match fault {
            Some(error) => {
                let again = same_error(&error);
                self.phase = Phase::Failed(error);
                Command::Abort(again)
            },
            None => {
                if !last {
                    match &self.phase {
                        Phase::Cleanup(n) => {
                            self.phase = Phase::Cleanup(*n - 1);
                        },
                        Phase::Publish(n) => {
                            self.phase = Phase::Publish(*n - 1);
                        },
                        _ => {},
                    }
                    Command::Wait
                } else if cleanup && self.tags.len() > 0 {
                    let all = tag_names(&self.tags);
                    self.phase = Phase::Publish(self.tags.len());
                    Command::Put(all)
                } else {
                    self.phase = Phase::Done;
                    Command::Finish
                }
            },
        };
        proof {
            before.tags.lemma_filter_len(|tag: (Seq<char>, bool)| tag.1);
        }
        Step { records, command }
    }

    /// Takes the breakdown of a request that the registry never answered
    /// (its task failed or was cancelled), with a message that says why.
    /// In a running phase this ends the publish like a failure that the
    /// registry reports.
    pub fn fail(&mut self, message: String) -> (step: Step)
        ensures
            (final(self)@, step@) == broken(old(self)@, message@),
            old(self)@.phase is Cleanup || old(self)@.phase is Publish ==> {
                &&& final(self)@.tags == old(self)@.tags
                &&& final(self)@.phase == PhaseView::Failed(PublishErrorView::Registry(message@))
                &&& step@.records == Seq::<RecordView>::empty()
                &&& step@.command == CommandView::Abort(PublishErrorView::Registry(message@))
            },
            old(self).wf() ==> final(self).wf(),
    {
        let event = match &self.phase {
            Phase::Cleanup(_) => Event::Deleted(DeleteOutcome::Fatal(message)),
            _ => Event::Put(PutOutcome::Fatal(message)),
        };
        self.step(event)
    }
}

/// Why the manifest of a build could not be had.
#[derive(PartialEq, Eq, Debug)]
pub enum ManifestError {
    /// The registry reported a failure, with its message.
    Registry(String),
    /// The registry holds no image under the tag of the build.
    NoImage,
    /// The registry reported the image without a manifest.
    NoManifest,
}

/// The mathematical value of a `ManifestError`.
pub enum ManifestErrorView {
    Registry(Seq<char>),
    NoImage,
    NoManifest,
}

impl View for ManifestError {
    type V = ManifestErrorView;

    open spec fn view(&self) -> ManifestErrorView {
        match self {
            ManifestError::Registry(message) => ManifestErrorView::Registry(message@),
            ManifestError::NoImage => ManifestErrorView::NoImage,
            ManifestError::NoManifest => ManifestErrorView::NoManifest,
        }
    }
}

/// The tag under which the image of a build was pushed: the commit id, or
/// the semantic version as `major.minor.patch`.
pub open spec fn pushed_tag(tag: TagView) -> Seq<char> {
    match tag {
        TagView::Commit(hash) => hash,
        TagView::SemVer(version) => version.triple(),
    }
}

/// The tag by which the manifest of a build is asked for.
pub fn manifest_tag(tag: &Tag) -> (r: String)
    ensures
        r@ == pushed_tag(tag@),
{
    match tag {
        Tag::Commit(commit) => commit.clone(),
        Tag::SemVer(version) => version.triple(),
    }
}

/// The manifest fields of the images that the registry returned, in order;
/// `None` stands for an image without one.
pub open spec fn manifest_list(images: Seq<Option<String>>) -> Seq<Option<Seq<char>>> {
    images.map_values(
        |manifest: Option<String>|
            match manifest {
                Some(text) => Some(text@),
                None => None,
            },
    )
}

/// The manifest in the registry's answer: that of the first image. No image
/// at all, or a first image without a manifest, is a failure, and so is a
/// failure of the registry.
pub open spec fn chosen_manifest(reply: Result<Seq<Option<Seq<char>>>, Seq<char>>) -> Result<
    Seq<char>,
    ManifestErrorView,
> {
    match reply {
        Err(message) => Err(ManifestErrorView::Registry(message)),
        Ok(images) => if images.len() == 0 {
            Err(ManifestErrorView::NoImage)
        } else {
            match images[0] {
                Some(manifest) => Ok(manifest),
                None => Err(ManifestErrorView::NoManifest),
            }
        },
    }
}

/// The mathematical value of the registry's answer to a request for the
/// images under one tag.
pub open spec fn reply_of(reply: Result<Vec<Option<String>>, String>) -> Result<
    Seq<Option<Seq<char>>>,
    Seq<char>,
> {
    match reply {
        Ok(images) => Ok(manifest_list(images@)),
        Err(message) => Err(message@),
    }
}

/// Picks the manifest out of the registry's answer.
pub fn first_manifest(reply: Result<Vec<Option<String>>, String>) -> (r: Result<
    String,
    ManifestError,
>)
    ensures
        match chosen_manifest(reply_of(reply)) {
            Ok(manifest) => r is Ok && r->Ok_0@ == manifest,
            Err(error) => r is Err && r->Err_0@ == error,
        },
{
    match reply {
        Err(message) => Err(ManifestError::Registry(message)),
        Ok(images) => {
            if images.len() == 0 {
                return Err(ManifestError::NoImage);
            }
            match &images[0] {
                Some(manifest) => Ok(manifest.clone()),
                None => Err(ManifestError::NoManifest),
            }
        },
    }
}

} // verus!
