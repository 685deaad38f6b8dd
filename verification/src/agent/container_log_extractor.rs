//! Which containers get a log reader, and when.
//!
//! On every tick of its timer the collector lists the running containers and
//! hands the listing to [`ContainerLogExtractor::poll_cycle`]. The extractor
//! keeps one task handle per container it is reading from and answers with the
//! containers for which a reader has to be started now: those that match the
//! selector and have no reader, or one whose task has ended. A container whose
//! reader is still running is never handed out again.

use crate::agent::app_config::AppConfig;
use crate::agent::container::{Container, ContainerSummary};
use crate::common::log::{decoded_payload, Log, LogView, ParseLogErr, ParseLogErrView};
use tokio::task::JoinHandle;
use vstd::prelude::*;
use vstd::string::*;

verus! {

/// The handle tokio gives for a spawned task. Verus sees nothing inside it.
#[verifier::external_type_specification]
#[verifier::external_body]
#[verifier::reject_recursive_types(T)]
pub struct ExJoinHandle<T>(JoinHandle<T>);

/// The error a joined task can end with. The extractor never looks at it; it
/// is declared because `JoinHandle` mentions it.
#[verifier::external_type_specification]
#[verifier::external_body]
pub struct ExJoinError(tokio::task::JoinError);

/// Calls `tokio::task::JoinHandle::is_finished`. Whether a task has ended
/// depends on the scheduler, so nothing is claimed of the answer.
#[verifier::external_body]
fn task_finished(handle: &JoinHandle<()>) -> (finished: bool) {
    handle.is_finished()
}

/// Whether `name` begins with `prefix`, character by character.
fn name_starts_with(name: &String, prefix: &String) -> (matches: bool)
    ensures
        matches == prefix@.is_prefix_of(name@),
{
    let text = name.as_str();
    let start = prefix.as_str();
    let wanted: usize = start.unicode_len();
    if wanted > text.unicode_len() {
        return false;
    }
    let mut i: usize = 0;
    while i < wanted
        invariant
            i <= wanted,
            text@ == name@,
            start@ == prefix@,
            wanted == prefix@.len(),
            wanted <= name@.len(),
            forall|k: int| 0 <= k < i ==> name@[k] == prefix@[k],
        decreases wanted - i,
    {
        if text.get_char(i) != start.get_char(i) {
            assert(name@.subrange(0, wanted as int)[i as int] != prefix@[i as int]);
            return false;
        }
        i += 1;
    }
    assert(prefix@ =~= name@.subrange(0, wanted as int));
    true
}

/// Whether one of `containers` is called `name`.
fn names_container(containers: &Vec<Container>, name: &String) -> (found: bool)
    ensures
        found == container_names(container_views(containers@)).contains(name@),
{
    let ghost names = container_names(container_views(containers@));
    let mut i: usize = 0;
    while i < containers.len()
        invariant
            i <= containers.len(),
            names == container_names(container_views(containers@)),
            forall|k: int| 0 <= k < i ==> names[k] != name@,
        decreases containers.len() - i,
    {
        if containers[i].name == *name {
            assert(names[i as int] == name@);
            return true;
        }
        i += 1;
    }
    false
}

/// A container reduced to what the plan is stated over.
pub struct ContainerView {
    pub name: Seq<char>,
    pub labels: Map<String, String>,
}

/// The container a listing entry stands for, if it has a name.
pub open spec fn listed_container(summary: ContainerSummary) -> Option<ContainerView> {
    match summary.names {
        None => None,
        Some(names) => Some(
            ContainerView { name: names@[0]@.skip(1), labels: summary.label_map() },
        ),
    }
}

/// [`listed_container`] as a function value.
pub open spec fn lister() -> spec_fn(ContainerSummary) -> Option<ContainerView> {
    |summary: ContainerSummary| listed_container(summary)
}

/// Takes a container to its view.
pub open spec fn view_of() -> spec_fn(Container) -> ContainerView {
    |c: Container| ContainerView { name: c.name@, labels: c.labels@ }
}

/// Takes a container to its name.
pub open spec fn name_of() -> spec_fn(ContainerView) -> Seq<char> {
    |c: ContainerView| c.name
}

/// Tells whether a name is `name`.
pub open spec fn is_named(name: Seq<char>) -> spec_fn(Seq<char>) -> bool {
    |other: Seq<char>| other == name
}

/// The containers of a list, each reduced to its view.
pub open spec fn container_views(containers: Seq<Container>) -> Seq<ContainerView> {
    containers.map_values(view_of())
}

/// The names of a list of containers.
pub open spec fn container_names(containers: Seq<ContainerView>) -> Seq<Seq<char>> {
    containers.map_values(name_of())
}

/// No reader of `name` is still running: either none is registered, or each
/// registered one has ended. `finished[i]` tells whether the task registered
/// under `streamed[i]` has ended.
pub open spec fn needs_reader(streamed: Seq<Seq<char>>, finished: Seq<bool>, name: Seq<char>) -> bool {
    forall|i: int| 0 <= i < streamed.len() && streamed[i] == name ==> finished[i]
}

/// What one listing entry contributes to a cycle: its container, if that
/// matches the selector and has no running reader.
pub open spec fn start_choice(
    streamed: Seq<Seq<char>>,
    finished: Seq<bool>,
    selector: Seq<char>,
    summary: ContainerSummary,
) -> Option<ContainerView> {
    match listed_container(summary) {
        Some(container) => if selector.is_prefix_of(container.name) && needs_reader(
            streamed,
            finished,
            container.name,
        ) {
            Some(container)
        } else {
            None
        },
        None => None,
    }
}

/// [`start_choice`] as a function of the listing entry alone.
pub open spec fn start_chooser(
    streamed: Seq<Seq<char>>,
    finished: Seq<bool>,
    selector: Seq<char>,
) -> spec_fn(ContainerSummary) -> Option<ContainerView> {
    |summary: ContainerSummary| start_choice(streamed, finished, selector, summary)
}

/// The containers for which one cycle starts a reader, in listing order.
pub open spec fn streams_to_start(
    streamed: Seq<Seq<char>>,
    finished: Seq<bool>,
    selector: Seq<char>,
    running: Seq<ContainerSummary>,
) -> Seq<ContainerView> {
    running.filter_map(start_chooser(streamed, finished, selector))
}

/// Whether a registration stays when readers for `started` are started anew.
pub open spec fn not_started(started: Seq<Seq<char>>) -> spec_fn(Seq<char>) -> bool {
    |name: Seq<char>| !started.contains(name)
}

/// A registration: the name of a container and the task that reads it.
pub type Reader = (Seq<char>, JoinHandle<()>);

/// Takes a registration to the name it is made under.
pub open spec fn reader_name() -> spec_fn(Reader) -> Seq<char> {
    |reader: Reader| reader.0
}

/// The names a row of registrations is made under.
pub open spec fn reader_names(readers: Seq<Reader>) -> Seq<Seq<char>> {
    readers.map_values(reader_name())
}

/// Whether a registration stays when readers for `started` are started anew.
pub open spec fn reader_not_started(started: Seq<Seq<char>>) -> spec_fn(Reader) -> bool {
    |reader: Reader| !started.contains(reader.0)
}

/// The registrations that survive a cycle, each with its task: every one but
/// those of the containers that are started anew.
pub open spec fn readers_kept(readers: Seq<Reader>, started: Seq<Seq<char>>) -> Seq<Reader> {
    readers.filter(reader_not_started(started))
}

/// The names of the registrations that survive a cycle: every one but those
/// of the containers that are started anew.
pub open spec fn streams_kept(streamed: Seq<Seq<char>>, started: Seq<Seq<char>>) -> Seq<Seq<char>> {
    streamed.filter(not_started(started))
}

/// Leaving elements out of a sequence without repetitions introduces none.
proof fn lemma_filter_keeps_distinct<A>(s: Seq<A>, keep: spec_fn(A) -> bool)
    requires
        s.no_duplicates(),
    ensures
        s.filter(keep).no_duplicates(),
    decreases s.len(),
{
    reveal(Seq::filter);
    if s.len() > 0 {
        let front = s.drop_last();
        lemma_filter_keeps_distinct(front, keep);
        let kept = front.filter(keep);
        if keep(s.last()) {
            assert forall|i: int| 0 <= i < kept.len() implies kept[i] != s.last() by {
                assert(kept.contains(kept[i]));
                front.lemma_filter_contains_rev(keep, kept[i]);
                let k = choose|k: int| 0 <= k < front.len() && front[k] == kept[i];
                assert(s[k] == kept[i]);
            }
        }
    }
}

/// How often `name` occurs among `names`.
pub open spec fn occurrences(names: Seq<Seq<char>>, name: Seq<char>) -> nat {
    names.filter(is_named(name)).len()
}

/// The names under which the runtime lists its containers, without the
/// leading `/`, in listing order.
pub open spec fn listed_names(running: Seq<ContainerSummary>) -> Seq<Seq<char>> {
    container_names(running.filter_map(lister()))
}

/// A container whose reader is still running gets no second reader, and its
/// registration stays.
pub proof fn lemma_live_reader_is_left_alone(
    streamed: Seq<Seq<char>>,
    finished: Seq<bool>,
    selector: Seq<char>,
    running: Seq<ContainerSummary>,
    i: int,
)
    requires
        finished.len() == streamed.len(),
        0 <= i < streamed.len(),
        !finished[i],
    ensures
        !container_names(streams_to_start(streamed, finished, selector, running)).contains(
            streamed[i],
        ),
        streams_kept(
            streamed,
            container_names(streams_to_start(streamed, finished, selector, running)),
        ).contains(streamed[i]),
{
    let choose_start = start_chooser(streamed, finished, selector);
    let started = streams_to_start(streamed, finished, selector, running);
    let names = container_names(started);
    if names.contains(streamed[i]) {
        let k = choose|k: int| 0 <= k < names.len() && names[k] == streamed[i];
        assert(started.contains(started[k]));
        running.lemma_filter_map_contains(choose_start, started[k]);
        assert(needs_reader(streamed, finished, streamed[i]));
    }
    streamed.lemma_filter_contains(not_started(names), i);
}

/// A cycle starts a reader for a name that matches the selector and has no
/// running reader as often as the runtime lists that name.
pub proof fn lemma_started_as_often_as_listed(
    streamed: Seq<Seq<char>>,
    finished: Seq<bool>,
    selector: Seq<char>,
    running: Seq<ContainerSummary>,
    name: Seq<char>,
)
    requires
        selector.is_prefix_of(name),
        needs_reader(streamed, finished, name),
    ensures
        occurrences(container_names(streams_to_start(streamed, finished, selector, running)), name)
            == occurrences(listed_names(running), name),
    decreases running.len(),
{
    let choose_start = start_chooser(streamed, finished, selector);
    let list = lister();
    let named = is_named(name);
    let to_name = name_of();
    if running.len() > 0 {
        let front = running.drop_last();
        let last = running.last();
        lemma_started_as_often_as_listed(streamed, finished, selector, front, name);
        let started_front = front.filter_map(choose_start);
        let listed_front = front.filter_map(list);
        let started_last = match choose_start(last) {
            Some(c) => seq![c],
            None => Seq::empty(),
        };
        let listed_last = match list(last) {
            Some(c) => seq![c],
            None => Seq::empty(),
        };
        assert(running.filter_map(choose_start) =~= started_front + started_last);
        assert(running.filter_map(list) =~= listed_front + listed_last);
        assert((started_front + started_last).map_values(to_name) =~= started_front.map_values(
            to_name,
        ) + started_last.map_values(to_name));
        assert((listed_front + listed_last).map_values(to_name) =~= listed_front.map_values(
            to_name,
        ) + listed_last.map_values(to_name));
        Seq::filter_distributes_over_add(
            started_front.map_values(to_name),
            started_last.map_values(to_name),
            named,
        );
        Seq::filter_distributes_over_add(
            listed_front.map_values(to_name),
            listed_last.map_values(to_name),
            named,
        );
        assert(started_last.map_values(to_name).filter(named) =~= listed_last.map_values(
            to_name,
        ).filter(named)) by {
            reveal_with_fuel(Seq::filter, 2);
            match list(last) {
                Some(c) => {
                    assert(seq![c].map_values(to_name) =~= seq![c.name]);
                    assert(seq![c.name].drop_last() =~= Seq::<Seq<char>>::empty());
                    assert(Seq::<ContainerView>::empty().map_values(to_name) =~= Seq::<
                        Seq<char>,
                    >::empty());
                },
                None => {},
            }
        }
    } else {
        assert(running.filter_map(choose_start) =~= Seq::<ContainerView>::empty());
        assert(running.filter_map(list) =~= Seq::<ContainerView>::empty());
    }
}

/// A container whose reader has ended, and which the runtime lists once
/// under a name that matches the selector, gets exactly one new reader, and
/// the ended reader's registration is dropped before the new one is made.
pub proof fn lemma_ended_reader_is_restarted_once(
    streamed: Seq<Seq<char>>,
    finished: Seq<bool>,
    selector: Seq<char>,
    running: Seq<ContainerSummary>,
    i: int,
)
    requires
        streamed.no_duplicates(),
        finished.len() == streamed.len(),
        0 <= i < streamed.len(),
        finished[i],
        selector.is_prefix_of(streamed[i]),
        occurrences(listed_names(running), streamed[i]) == 1,
    ensures
        occurrences(
            container_names(streams_to_start(streamed, finished, selector, running)),
            streamed[i],
        ) == 1,
        !streams_kept(
            streamed,
            container_names(streams_to_start(streamed, finished, selector, running)),
        ).contains(streamed[i]),
{
    let name = streamed[i];
    let names = container_names(streams_to_start(streamed, finished, selector, running));
    let named = is_named(name);
    assert(needs_reader(streamed, finished, name));
    lemma_started_as_often_as_listed(streamed, finished, selector, running, name);
    assert(names.contains(name)) by {
        assert(names.filter(named).len() == 1);
        assert(names.filter(named).contains(names.filter(named)[0]));
        names.lemma_filter_pred(named, 0);
        names.lemma_filter_contains_rev(named, names.filter(named)[0]);
    }
    let kept = streams_kept(streamed, names);
    if kept.contains(name) {
        let k = choose|k: int| 0 <= k < kept.len() && kept[k] == name;
        streamed.lemma_filter_pred(not_started(names), k);
    }
}

/// A container without a registered reader that the runtime lists once under
/// a name that matches the selector gets exactly one reader.
pub proof fn lemma_new_container_is_started_once(
    streamed: Seq<Seq<char>>,
    finished: Seq<bool>,
    selector: Seq<char>,
    running: Seq<ContainerSummary>,
    name: Seq<char>,
)
    requires
        !streamed.contains(name),
        selector.is_prefix_of(name),
        occurrences(listed_names(running), name) == 1,
    ensures
        occurrences(
            container_names(streams_to_start(streamed, finished, selector, running)),
            name,
        ) == 1,
{
    lemma_started_as_often_as_listed(streamed, finished, selector, running, name);
}

/// The second at which a reader resumes for a watermark given in
/// milliseconds. The runtime takes whole seconds, so up to a second of
/// records may be read again.
pub open spec fn resume_second(latest_log_sent_timestamp: i64) -> int {
    if latest_log_sent_timestamp >= 0 {
        latest_log_sent_timestamp / 1000
    } else {
        -((-latest_log_sent_timestamp) / 1000)
    }
}

/// What to ask the runtime for when a reader is started: the output of one
/// container from `since` on, in seconds since the epoch, with standard
/// output and standard error merged into one stream that stays open.
#[derive(Debug)]
pub struct StreamRequest {
    pub container_name: String,
    pub follow: bool,
    pub stdout: bool,
    pub stderr: bool,
    pub since: i64,
}

/// How the task of a reader ends.
#[derive(Debug)]
pub enum StreamEnd {
    /// The runtime closed the stream.
    Finished,
    /// Reading failed. The task does not try again: the next cycle finds its
    /// handle finished and starts a new reader.
    Failed { reason: String },
}

/// What a reader does with one item of its stream.
#[derive(Debug)]
pub enum StreamStep {
    /// Push the record onto the delivery queue, waiting while it is full.
    Deliver(Log),
    /// The chunk is no record: note the reason and go on with the next.
    Discard(ParseLogErr),
    /// End the task with this result.
    Stop(StreamEnd),
}

/// A [`StreamStep`] as a mathematical value.
pub enum StreamStepView {
    Deliver(LogView),
    Discard(ParseLogErrView),
    Finished,
    Failed { reason: Seq<char> },
}

impl View for StreamStep {
    type V = StreamStepView;

    open spec fn view(&self) -> StreamStepView {
        match self {
            StreamStep::Deliver(log) => StreamStepView::Deliver(log@),
            StreamStep::Discard(reason) => StreamStepView::Discard(reason@),
            StreamStep::Stop(StreamEnd::Finished) => StreamStepView::Finished,
            StreamStep::Stop(StreamEnd::Failed { reason }) => StreamStepView::Failed {
                reason: reason@,
            },
        }
    }
}

/// What a reader does with an item of its stream: `None` for the end of the
/// stream, an error for a failed read, else the chunk that was read.
pub open spec fn stream_step(item: Option<Result<Seq<u8>, Seq<char>>>) -> StreamStepView {
    match item {
        None => StreamStepView::Finished,
        Some(Err(reason)) => StreamStepView::Failed { reason },
        Some(Ok(chunk)) => match decoded_payload(chunk) {
            Ok(log) => StreamStepView::Deliver(log),
            Err(reason) => StreamStepView::Discard(reason),
        },
    }
}

/// An item of a stream as a mathematical value.
pub open spec fn item_view(item: Option<Result<&[u8], String>>) -> Option<
    Result<Seq<u8>, Seq<char>>,
> {
    match item {
        None => None,
        Some(Err(reason)) => Some(Err(reason@)),
        Some(Ok(chunk)) => Some(Ok(chunk@)),
    }
}

/// The collector's bookkeeping of running readers.
pub struct ContainerLogExtractor {
    log_handle_tasks: Vec<(String, JoinHandle<()>)>,
    container_poll_interval_in_seconds: u64,
    container_selector: String,
    latest_log_sent_timestamp: i64,
}

impl ContainerLogExtractor {
    /// No container has two registered readers.
    pub closed spec fn wf(&self) -> bool {
        self.streamed().no_duplicates()
    }

    /// A well-formed extractor has no name registered twice.
    pub proof fn lemma_wf_names_are_distinct(&self)
        requires
            self.wf(),
        ensures
            self.streamed().no_duplicates(),
    {
    }

    /// The names of the containers a reader is registered for, in the order
    /// of registration.
    pub closed spec fn streamed(&self) -> Seq<Seq<char>> {
        self.log_handle_tasks@.map_values(|entry: (String, JoinHandle<()>)| entry.0@)
    }

    /// The registrations, in the order in which they were made.
    pub closed spec fn readers(&self) -> Seq<Reader> {
        self.log_handle_tasks@.map_values(|entry: (String, JoinHandle<()>)| (entry.0@, entry.1))
    }

    /// The names a reader is registered for are the names of the
    /// registrations.
    pub proof fn lemma_streamed_names_readers(&self)
        ensures
            self.streamed() == reader_names(self.readers()),
    {
        assert(self.streamed() =~= reader_names(self.readers()));
    }

    /// The prefix a container name must have to be collected.
    pub closed spec fn selector(&self) -> Seq<char> {
        self.container_selector@
    }

    /// The watermark the readers resume from, in milliseconds.
    pub closed spec fn latest(&self) -> i64 {
        self.latest_log_sent_timestamp
    }

    /// Seconds between two listings.
    pub closed spec fn poll_interval(&self) -> u64 {
        self.container_poll_interval_in_seconds
    }

    /// An extractor without readers, set up from the collector's settings and
    /// the watermark found at start.
    pub fn new(app_config: &AppConfig, latest_log_sent_timestamp: i64) -> (extractor: Self)
        ensures
            extractor.wf(),
            extractor.streamed() == Seq::<Seq<char>>::empty(),
            extractor.readers() == Seq::<Reader>::empty(),
            extractor.selector() == app_config.container_selector@,
            extractor.latest() == latest_log_sent_timestamp,
            extractor.poll_interval() == app_config.docker_container_poll_interval_in_seconds,
    {
        let extractor = ContainerLogExtractor {
            log_handle_tasks: Vec::new(),
            container_poll_interval_in_seconds: app_config.docker_container_poll_interval_in_seconds,
            container_selector: app_config.container_selector.clone(),
            latest_log_sent_timestamp,
        };
        assert(extractor.streamed() =~= Seq::<Seq<char>>::empty());
        assert(extractor.readers() =~= Seq::<Reader>::empty());
        extractor
    }

    /// One step of a reader's task. A chunk that decodes is delivered; one
    /// that does not is dropped without ending the task; a failed read ends
    /// the task at once.
    pub fn handle_container_logs(item: Option<Result<&[u8], String>>) -> (step: StreamStep)
        ensures
            step@ == stream_step(item_view(item)),
            step matches StreamStep::Deliver(log) ==> log.wf(),
    {
        match item {
            None => StreamStep::Stop(StreamEnd::Finished),
            Some(Err(reason)) => StreamStep::Stop(StreamEnd::Failed { reason }),
            Some(Ok(chunk)) => match Log::try_from(chunk) {
                Ok(log) => StreamStep::Deliver(log),
                Err(reason) => StreamStep::Discard(reason),
            },
        }
    }

    /// The second from which a newly started reader asks the runtime for
    /// output: the watermark, cut down to whole seconds.
    pub fn stream_since(&self) -> (since: i64)
        ensures
            since == resume_second(self.latest()),
    {
        self.latest_log_sent_timestamp / 1000
    }

    /// The stream to open for a container that is to be started.
    pub fn stream_request(&self, container: &Container) -> (request: StreamRequest)
        ensures
            request.container_name@ == container.name@,
            request.follow,
            request.stdout,
            request.stderr,
            request.since == resume_second(self.latest()),
    {
        StreamRequest {
            container_name: container.name.clone(),
            follow: true,
            stdout: true,
            stderr: true,
            since: self.latest_log_sent_timestamp / 1000,
        }
    }

    /// Seconds between two listings.
    pub fn container_poll_interval_in_seconds(&self) -> (seconds: u64)
        ensures
            seconds == self.poll_interval(),
    {
        self.container_poll_interval_in_seconds
    }

    /// How many readers are registered.
    pub fn stream_count(&self) -> (count: usize)
        ensures
            count == self.streamed().len(),
    {
        self.log_handle_tasks.len()
    }

    fn position(&self, name: &String) -> (found: Option<usize>)
        ensures
            match found {
                Some(i) => i < self.streamed().len() && self.streamed()[i as int] == name@,
                None => !self.streamed().contains(name@),
            },
    {
        let mut i: usize = 0;
        while i < self.log_handle_tasks.len()
            invariant
                i <= self.log_handle_tasks.len(),
                forall|k: int| 0 <= k < i ==> self.streamed()[k] != name@,
            decreases self.log_handle_tasks.len() - i,
        {
            if self.log_handle_tasks[i].0 == *name {
                return Some(i);
            }
            i += 1;
        }
        None
    }

    /// Whether a reader is registered for `name`, running or not.
    pub fn is_streamed(&self, name: &String) -> (streamed: bool)
        ensures
            streamed == self.streamed().contains(name@),
    {
        self.position(name).is_some()
    }

    fn lacks_live_reader(&self, name: &String, finished: &Vec<bool>) -> (lacks: bool)
        requires
            self.wf(),
            finished@.len() == self.streamed().len(),
        ensures
            lacks == needs_reader(self.streamed(), finished@, name@),
    {
        match self.position(name) {
            None => true,
            Some(i) => finished[i],
        }
    }

    /// One cycle, given what the runtime lists and which registered tasks
    /// have ended. Returns the containers to start a reader for and drops the
    /// registration of each ended reader that is started anew, so that no
    /// name has a registration left when its new reader is registered.
    pub fn plan_cycle(&mut self, running: &Vec<ContainerSummary>, finished: &Vec<bool>) -> (to_start:
        Vec<Container>)
        requires
            old(self).wf(),
            finished@.len() == old(self).streamed().len(),
            forall|i: int| 0 <= i < running@.len() ==> (#[trigger] running@[i]).well_formed(),
        ensures
            final(self).wf(),
            container_views(to_start@) == streams_to_start(
                old(self).streamed(),
                finished@,
                old(self).selector(),
                running@,
            ),
            final(self).streamed() == streams_kept(
                old(self).streamed(),
                container_names(container_views(to_start@)),
            ),
            final(self).readers() == readers_kept(
                old(self).readers(),
                container_names(container_views(to_start@)),
            ),
            final(self).selector() == old(self).selector(),
            final(self).latest() == old(self).latest(),
            final(self).poll_interval() == old(self).poll_interval(),
    {
        let ghost streamed = self.streamed();
        let ghost choose_start = start_chooser(streamed, finished@, self.selector());
        let mut to_start: Vec<Container> = Vec::new();
        let mut i: usize = 0;
        assert(running@.take(0).filter_map(choose_start) =~= Seq::<ContainerView>::empty());
        while i < running.len()
            invariant
                i <= running.len(),
                self.wf(),
                self.streamed() == streamed,
                *self == *old(self),
                finished@.len() == streamed.len(),
                choose_start == start_chooser(streamed, finished@, self.selector()),
                forall|k: int| 0 <= k < running@.len() ==> (#[trigger] running@[k]).well_formed(),
                container_views(to_start@) =~= running@.take(i as int).filter_map(choose_start),
            decreases running.len() - i,
        {
            let ghost before = container_views(to_start@);
            proof {
                running@.lemma_filter_map_take_succ(choose_start, i as int);
            }
            match Container::from_summary(&running[i]) {
                None => {},
                Some(container) => {
                    if name_starts_with(&container.name, &self.container_selector)
                        && self.lacks_live_reader(&container.name, finished) {
                        let ghost view = ContainerView {
                            name: container.name@,
                            labels: container.labels@,
                        };
                        assert(choose_start(running@[i as int]) == Some(view));
                        to_start.push(container);
                        assert(container_views(to_start@) =~= before.push(view));
                    }
                },
            }
            i += 1;
        }
        assert(running@.take(running@.len() as int) =~= running@);
        let ghost started = container_names(container_views(to_start@));
        let ghost keep = not_started(started);
        let ghost readers = self.readers();
        let ghost keep_reader = reader_not_started(started);
        let mut j: usize = self.log_handle_tasks.len();
        assert(streamed.skip(j as int).filter(keep) =~= Seq::<Seq<char>>::empty()) by {
            reveal(Seq::filter);
        }
        assert(readers.skip(j as int).filter(keep_reader) =~= Seq::<Reader>::empty()) by {
            reveal(Seq::filter);
        }
        assert(streamed.take(j as int) =~= streamed);
        assert(readers.take(j as int) =~= readers);
        while j > 0
            invariant
                j <= streamed.len(),
                j <= self.log_handle_tasks@.len(),
                streamed == old(self).streamed(),
                started == container_names(container_views(to_start@)),
                keep == not_started(started),
                self.streamed() =~= streamed.take(j as int) + streamed.skip(j as int).filter(keep),
                readers == old(self).readers(),
                readers.len() == streamed.len(),
                keep_reader == reader_not_started(started),
                self.readers() =~= readers.take(j as int) + readers.skip(j as int).filter(
                    keep_reader,
                ),
                self.container_selector == old(self).container_selector,
                self.latest_log_sent_timestamp == old(self).latest_log_sent_timestamp,
                self.container_poll_interval_in_seconds == old(
                    self,
                ).container_poll_interval_in_seconds,
            decreases j,
        {
            j -= 1;
            let ghost name = streamed[j as int];
            let ghost tail = streamed.skip(j as int + 1);
            proof {
                assert(streamed.skip(j as int) =~= seq![name] + tail);
                Seq::filter_distributes_over_add(seq![name], tail, keep);
                assert(seq![name].filter(keep) =~= if keep(name) {
                    seq![name]
                } else {
                    Seq::<Seq<char>>::empty()
                }) by {
                    reveal_with_fuel(Seq::filter, 2);
                    assert(seq![name].drop_last() =~= Seq::<Seq<char>>::empty());
                }
                assert(streamed.take(j as int + 1) =~= streamed.take(j as int).push(name));
                assert(self.streamed()[j as int] == name);
            }
            let ghost reader = readers[j as int];
            let ghost later = readers.skip(j as int + 1);
            proof {
                assert(readers.skip(j as int) =~= seq![reader] + later);
                Seq::filter_distributes_over_add(seq![reader], later, keep_reader);
                assert(seq![reader].filter(keep_reader) =~= if keep_reader(reader) {
                    seq![reader]
                } else {
                    Seq::<Reader>::empty()
                }) by {
                    reveal_with_fuel(Seq::filter, 2);
                    assert(seq![reader].drop_last() =~= Seq::<Reader>::empty());
                }
                assert(readers.take(j as int + 1) =~= readers.take(j as int).push(reader));
                assert(self.readers()[j as int] == reader);
                assert(reader.0 == name);
            }
            let ghost before = self.streamed();
            let ghost before_readers = self.readers();
            assert(before =~= streamed.take(j as int).push(name) + tail.filter(keep));
            assert(before_readers =~= readers.take(j as int).push(reader) + later.filter(
                keep_reader,
            ));
            if names_container(&to_start, &self.log_handle_tasks[j].0) {
                let _ = self.log_handle_tasks.remove(j);
                assert(self.streamed() =~= before.remove(j as int));
                assert(self.streamed() =~= streamed.take(j as int) + tail.filter(keep));
                assert(self.readers() =~= before_readers.remove(j as int));
                assert(self.readers() =~= readers.take(j as int) + later.filter(keep_reader));
            }
        }
        assert(streamed.skip(0) =~= streamed);
        assert(readers.skip(0) =~= readers);
        proof {
            lemma_filter_keeps_distinct(streamed, keep);
        }
        to_start
    }

    /// One cycle of the poll loop: asks the registered tasks whether they
    /// have ended and plans with their answers. Whatever the tasks answer,
    /// the outcome is that of [`Self::plan_cycle`] for some answers.
    pub fn poll_cycle(&mut self, running: &Vec<ContainerSummary>) -> (to_start: Vec<Container>)
        requires
            old(self).wf(),
            forall|i: int| 0 <= i < running@.len() ==> (#[trigger] running@[i]).well_formed(),
        ensures
            final(self).wf(),
            exists|finished: Seq<bool>|
                {
                    &&& finished.len() == old(self).streamed().len()
                    &&& container_views(to_start@) == #[trigger] streams_to_start(
                        old(self).streamed(),
                        finished,
                        old(self).selector(),
                        running@,
                    )
                },
            final(self).streamed() == streams_kept(
                old(self).streamed(),
                container_names(container_views(to_start@)),
            ),
            final(self).readers() == readers_kept(
                old(self).readers(),
                container_names(container_views(to_start@)),
            ),
            final(self).selector() == old(self).selector(),
            final(self).latest() == old(self).latest(),
            final(self).poll_interval() == old(self).poll_interval(),
    {
        let finished = self.finished_tasks();
        self.plan_cycle(running, &finished)
    }

    /// Registers the task that reads `name`. A registration that `name`
    /// already has is replaced and its task handed back, so a name never has
    /// two.
    pub fn register(&mut self, name: String, handle: JoinHandle<()>) -> (replaced: Option<
        JoinHandle<()>,
    >)
        requires
            old(self).wf(),
        ensures
            final(self).wf(),
            replaced is Some <==> old(self).streamed().contains(name@),
            !old(self).streamed().contains(name@) ==> {
                &&& final(self).streamed() == old(self).streamed().push(name@)
                &&& final(self).readers() == old(self).readers().push((name@, handle))
            },
            forall|i: int|
                0 <= i < old(self).streamed().len() && old(self).streamed()[i] == name@ ==> {
                    &&& final(self).streamed() == old(self).streamed().remove(i).push(name@)
                    &&& final(self).readers() == old(self).readers().remove(i).push(
                        (name@, handle),
                    )
                    &&& replaced == Some(old(self).readers()[i].1)
                },
            final(self).selector() == old(self).selector(),
            final(self).latest() == old(self).latest(),
            final(self).poll_interval() == old(self).poll_interval(),
    {
        let ghost streamed = self.streamed();
        let ghost readers = self.readers();
        let ghost key = name@;
        match self.position(&name) {
            None => {
                self.log_handle_tasks.push((name, handle));
                assert(self.streamed() =~= streamed.push(key));
                assert(self.readers() =~= readers.push((key, handle)));
                None
            },
            Some(i) => {
                let previous = self.log_handle_tasks.remove(i);
                assert(self.streamed() =~= streamed.remove(i as int));
                assert(self.readers() =~= readers.remove(i as int));
                assert(previous.1 == readers[i as int].1);
                self.log_handle_tasks.push((name, handle));
                assert(self.streamed() =~= streamed.remove(i as int).push(key));
                assert(self.readers() =~= readers.remove(i as int).push((key, handle)));
                Some(previous.1)
            },
        }
    }

    /// Asks every registered task whether it has ended. The answer at index
    /// `i` belongs to the reader of `self.streamed()[i]`.
    pub fn finished_tasks(&self) -> (finished: Vec<bool>)
        ensures
            finished@.len() == self.streamed().len(),
    {
        let mut finished: Vec<bool> = Vec::new();
        let mut i: usize = 0;
        while i < self.log_handle_tasks.len()
            invariant
                i <= self.log_handle_tasks.len(),
                finished@.len() == i,
            decreases self.log_handle_tasks.len() - i,
        {
            finished.push(task_finished(&self.log_handle_tasks[i].1));
            i += 1;
        }
        finished
    }
}

} // verus!
