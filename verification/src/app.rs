//! What the bridge does from its start to its end.
use crate::bindings::{parse_url, url_parsed};
use crate::bridge::{runtime_of, BridgeError, RuntimeView, StreamRuntime};
use crate::client::{default_policy, ClientConfig, DurableStreamsClient, USER_AGENT};
use crate::config::{BridgeConfig, ConfigError, DiscoveryConfig};
use crate::error::{Error, ErrorView};
use crate::kafka::SinkError;
use crate::offset_store::OffsetStoreError;
use crate::text::{concat3, opt_view, text_result, views};
use crate::time::{TimeSpan, NANOS_PER_MILLI};
use vstd::prelude::*;
use vstd::string::*;

verus! {

/// The bridge, with its configuration.
#[derive(Debug)]
pub struct App {
    config: BridgeConfig,
}

impl View for App {
    type V = BridgeConfig;

    closed spec fn view(&self) -> BridgeConfig {
        self.config
    }
}

/// What can go wrong with the bridge.
#[derive(Debug)]
pub enum AppError {
    Config(ConfigError),
    Client(Error),
    Kafka(SinkError),
    PreflightStream { stream_path: String, source: Error },
    PreflightKafka(SinkError),
    OffsetStore(OffsetStoreError),
    Bridge(BridgeError),
    Join(String),
    Signal(String),
    MissingOffsetStorePath,
}

impl AppError {
    /// The failure in words.
    pub open spec fn text(self) -> Seq<char> {
        match self {
            AppError::Config(error) => error.text(),
            AppError::Client(error) => error@.message(),
            AppError::Kafka(error) => error.text(),
            AppError::PreflightStream { stream_path, .. } => {
                "durable streams preflight failed for `"@ + stream_path@ + "`"@
            },
            AppError::PreflightKafka(_) => "kafka preflight failed"@,
            AppError::OffsetStore(error) => error@.message(),
            AppError::Bridge(error) => error.text(),
            AppError::Join(text) => text@,
            AppError::Signal(text) => text@,
            AppError::MissingOffsetStorePath => "offset store path was not resolved"@,
        }
    }

    /// The failure in words.
    pub fn message(&self) -> (r: String)
        ensures
            r@ == self.text(),
    {
        match self {
            AppError::Config(error) => error.message(),
            AppError::Client(error) => error.message(),
            AppError::Kafka(error) => error.message(),
            AppError::PreflightStream { stream_path, .. } => concat3(
                "durable streams preflight failed for `",
                stream_path.as_str(),
                "`",
            ),
            AppError::PreflightKafka(_) => "kafka preflight failed".to_owned(),
            AppError::OffsetStore(error) => error.message(),
            AppError::Bridge(error) => error.message(),
            AppError::Join(text) => text.clone(),
            AppError::Signal(text) => text.clone(),
            AppError::MissingOffsetStorePath => "offset store path was not resolved".to_owned(),
        }
    }
}

/// One step of the start.
#[derive(Debug)]
pub enum StartupStep {
    /// Make what requests to the Durable Streams server are sent with.
    Connect,
    /// Make the producer of Kafka records.
    CreateSink,
    /// Ask for the metadata of the stream.
    CheckStream { path: String },
    /// Ask Kafka for its metadata, and for the topics where they have to exist.
    CheckTopics { topics: Vec<String>, timeout: TimeSpan, require_topics_exist: bool },
    /// Read the offsets that are kept.
    OpenStore { path: String },
    /// Give up, because there is no place to keep offsets.
    MissingStore,
    /// Forward the stream, in a task of its own.
    Forward(StreamRuntime),
    /// Follow the control stream, in a task of its own.
    Discover(DiscoveryConfig),
}

/// What a [`StartupStep`] stands for.
pub ghost enum StartupView {
    Connect,
    CreateSink,
    CheckStream { path: Seq<char> },
    CheckTopics { topics: Seq<Seq<char>>, timeout: nat, require_topics_exist: bool },
    OpenStore { path: Seq<char> },
    MissingStore,
    Forward(RuntimeView),
    Discover(DiscoveryConfig),
}

impl View for StartupStep {
    type V = StartupView;

    open spec fn view(&self) -> StartupView {
        match self {
            StartupStep::Connect => StartupView::Connect,
            StartupStep::CreateSink => StartupView::CreateSink,
            StartupStep::CheckStream { path } => StartupView::CheckStream { path: path@ },
            StartupStep::CheckTopics { topics, timeout, require_topics_exist } => {
                StartupView::CheckTopics {
                    topics: views(topics@),
                    timeout: timeout@,
                    require_topics_exist: *require_topics_exist,
                }
            },
            StartupStep::OpenStore { path } => StartupView::OpenStore { path: path@ },
            StartupStep::MissingStore => StartupView::MissingStore,
            StartupStep::Forward(runtime) => StartupView::Forward(runtime@),
            StartupStep::Discover(config) => StartupView::Discover(*config),
        }
    }
}

/// The views of the steps, in order.
pub open spec fn startup_views(steps: Seq<StartupStep>) -> Seq<StartupView> {
    steps.map_values(|step: StartupStep| step@)
}

/// The views of the streams, in order.
pub open spec fn runtime_views(runtimes: Seq<StreamRuntime>) -> Seq<RuntimeView> {
    runtimes.map_values(|runtime: StreamRuntime| runtime@)
}

/// The streams of the configuration, in order.
pub open spec fn runtimes_of(config: BridgeConfig) -> Seq<RuntimeView> {
    Seq::new(
        config.streams@.len(),
        |i: int| runtime_of(config.streams@[i], config.targets@, config.topic_mapping),
    )
}

/// The steps that check whether both sides can be reached.
pub open spec fn preflight_steps(config: BridgeConfig) -> Seq<StartupView> {
    let runtimes = runtimes_of(config);
    if config.preflight.enabled {
        runtimes.map_values(
            |runtime: RuntimeView| StartupView::CheckStream { path: runtime.path },
        ).push(
            StartupView::CheckTopics {
                topics: runtimes.map_values(|runtime: RuntimeView| runtime.topic),
                timeout: (config.preflight.timeout_ms * NANOS_PER_MILLI) as nat,
                require_topics_exist: config.preflight.require_topics_exist,
            },
        )
    } else {
        Seq::empty()
    }
}

/// The steps that start the tasks.
pub open spec fn task_steps(config: BridgeConfig) -> Seq<StartupView> {
    runtimes_of(config).map_values(|runtime: RuntimeView| StartupView::Forward(runtime))
        + config.discovery@.map_values(
        |discovery: DiscoveryConfig| StartupView::Discover(discovery),
    )
}

/// The steps that make what both sides are reached with.
pub open spec fn connection_steps() -> Seq<StartupView> {
    seq![StartupView::Connect, StartupView::CreateSink]
}

/// The steps of the start, in order.
pub open spec fn startup_steps(config: BridgeConfig) -> Seq<StartupView> {
    let ready = connection_steps() + preflight_steps(config);
    match opt_view(config.offset_store.path) {
        Some(path) => ready + seq![StartupView::OpenStore { path }] + task_steps(config),
        None => ready + seq![StartupView::MissingStore],
    }
}

/// What came of a step of the start.
#[derive(Debug)]
pub enum StepOutcome {
    /// The step has been taken.
    Done,
    /// There is no such stream to ask for.
    NoStream(Error),
    /// The Durable Streams server could not be asked, or did not answer as it should.
    NoAnswer(Error),
    /// The producer could not be made, or Kafka did not answer as it should.
    NoSink(SinkError),
    /// The offsets that are kept could not be read.
    NoStore(OffsetStoreError),
}

/// Whether the start goes on after the step.
pub open spec fn goes_on(step: StartupView, outcome: StepOutcome) -> bool {
    outcome is Done && !(step is MissingStore)
}

/// Whether the step that came out so ends the start with the failure.
pub open spec fn ends_with(step: StartupView, outcome: StepOutcome, error: AppError) -> bool {
    match (step, outcome) {
        (StartupView::MissingStore, _) => error is MissingOffsetStorePath,
        (_, StepOutcome::Done) => false,
        (_, StepOutcome::NoStream(source)) => error == AppError::Client(source),
        (StartupView::CheckStream { path }, StepOutcome::NoAnswer(source)) => {
            &&& error is PreflightStream
            &&& error->stream_path@ == path
            &&& error->PreflightStream_source == source
        },
        (_, StepOutcome::NoAnswer(source)) => error == AppError::Client(source),
        (StartupView::CheckTopics { .. }, StepOutcome::NoSink(source)) => error
            == AppError::PreflightKafka(source),
        (_, StepOutcome::NoSink(source)) => error == AppError::Kafka(source),
        (_, StepOutcome::NoStore(source)) => error == AppError::OffsetStore(source),
    }
}

/// Decides whether the start goes on after the step, and with which failure it ends if not.
pub fn step_taken(step: &StartupStep, outcome: StepOutcome) -> (r: Result<(), AppError>)
    ensures
        r is Ok <==> goes_on(step@, outcome),
        r matches Err(error) ==> ends_with(step@, outcome, error),
{
    match (step, outcome) {
        (StartupStep::MissingStore, _) => Err(AppError::MissingOffsetStorePath),
        (_, StepOutcome::Done) => Ok(()),
        (_, StepOutcome::NoStream(source)) => Err(AppError::Client(source)),
        (StartupStep::CheckStream { path }, StepOutcome::NoAnswer(source)) => Err(
            AppError::PreflightStream { stream_path: path.clone(), source },
        ),
        (_, StepOutcome::NoAnswer(source)) => Err(AppError::Client(source)),
        (StartupStep::CheckTopics { .. }, StepOutcome::NoSink(source)) => Err(
            AppError::PreflightKafka(source),
        ),
        (_, StepOutcome::NoSink(source)) => Err(AppError::Kafka(source)),
        (_, StepOutcome::NoStore(source)) => Err(AppError::OffsetStore(source)),
    }
}

/// The steps of the start that are left to take. They are handed out one by one: the next one
/// once the one before it has been taken, and none after one that failed.
#[derive(Debug)]
pub struct Startup {
    steps: Vec<StartupStep>,
    next: usize,
}

impl View for Startup {
    type V = Seq<StartupView>;

    closed spec fn view(&self) -> Seq<StartupView> {
        startup_views(self.steps@).skip(self.next as int)
    }
}

impl Startup {
    #[verifier::type_invariant]
    spec fn in_range(self) -> bool {
        self.next <= self.steps@.len()
    }

    /// The step to take, if one is left.
    pub fn step(&self) -> (r: Option<&StartupStep>)
        ensures
            r is None <==> self@.len() == 0,
            r is Some ==> r->0@ == self@[0],
    {
        proof {
            use_type_invariant(self);
        }
        if self.next < self.steps.len() {
            Some(&self.steps[self.next])
        } else {
            None
        }
    }

    /// Takes what came of the step. The start goes on with the step after it, or ends.
    pub fn taken(self, outcome: StepOutcome) -> (r: Result<Startup, AppError>)
        requires
            self@.len() > 0,
        ensures
            r is Ok <==> goes_on(self@[0], outcome),
            r matches Ok(rest) ==> rest@ == self@.drop_first(),
            r matches Err(error) ==> ends_with(self@[0], outcome, error),
    {
        proof {
            use_type_invariant(&self);
        }
        assert(self.next < self.steps.len());
        match step_taken(&self.steps[self.next], outcome) {
            Ok(()) => {
                let rest = Startup { steps: self.steps, next: self.next + 1 };
                assert(rest@ =~= self@.drop_first());
                Ok(rest)
            },
            Err(error) => Err(error),
        }
    }
}

/// What happened to the tasks of the bridge.
#[derive(Debug)]
pub enum TaskEvent {
    /// A task came to its end.
    Finished,
    /// A task failed.
    Failed(BridgeError),
    /// A task broke off.
    Broken(String),
    /// No task is left, and none is about to start.
    NoneLeft,
    /// The user asked the bridge to end.
    Interrupted,
    /// Such a request could not be waited for.
    SignalFailed(String),
}

/// What the bridge does next.
#[derive(Debug)]
pub enum Verdict {
    /// Wait for what happens next.
    Continue,
    /// End.
    Done,
    /// Stop all tasks, and end.
    Abort,
    /// End with the failure.
    Fail(AppError),
}

/// Decides what the bridge does on what happened to its tasks.
pub fn supervise(event: TaskEvent) -> (r: Verdict)
    ensures
        match event {
            TaskEvent::Finished => r is Continue,
            TaskEvent::Failed(error) => r == Verdict::Fail(AppError::Bridge(error)),
            TaskEvent::Broken(source) => r == Verdict::Fail(AppError::Join(source)),
            TaskEvent::NoneLeft => r is Done,
            TaskEvent::Interrupted => r is Abort,
            TaskEvent::SignalFailed(source) => r == Verdict::Fail(AppError::Signal(source)),
        },
{
    match event {
        TaskEvent::Finished => Verdict::Continue,
        TaskEvent::Failed(error) => Verdict::Fail(AppError::Bridge(error)),
        TaskEvent::Broken(source) => Verdict::Fail(AppError::Join(source)),
        TaskEvent::NoneLeft => Verdict::Done,
        TaskEvent::Interrupted => Verdict::Abort,
        TaskEvent::SignalFailed(source) => Verdict::Fail(AppError::Signal(source)),
    }
}

impl App {
    /// The bridge with the given configuration.
    pub fn new(config: BridgeConfig) -> (r: App)
        ensures
            r@ == config,
    {
        App { config }
    }

    /// The configuration.
    pub fn config(&self) -> (r: &BridgeConfig)
        ensures
            *r == self@,
    {
        &self.config
    }

    /// The client of the Durable Streams server, where `parsed` is what the URL of the server
    /// parses to.
    pub fn client_with_parsed(&self, parsed: Result<String, String>) -> (r: Result<
        DurableStreamsClient,
        AppError,
    >)
        ensures
            match text_result(parsed) {
                Ok(text) => r is Ok && {
                    let client = r->Ok_0@;
                    &&& client.base.given == self@.durable_streams.base_url@
                    &&& client.base.text == text
                    &&& client.request_timeout == self@.durable_streams.request_timeout_ms
                        * NANOS_PER_MILLI
                    &&& default_policy(client.retry_policy)
                    &&& client.user_agent == Some(USER_AGENT@)
                },
                Err(source) => r matches Err(AppError::Client(error)) && error@
                    == (ErrorView::InvalidBaseUrl {
                    url: self@.durable_streams.base_url@,
                    source,
                }),
            },
    {
        let defaults = ClientConfig::default();
        let config = ClientConfig {
            request_timeout: TimeSpan::from_millis(self.config.durable_streams.request_timeout_ms),
            retry_policy: defaults.retry_policy,
            user_agent: defaults.user_agent,
        };
        match DurableStreamsClient::with_parsed(
            self.config.durable_streams.base_url.as_str(),
            parsed,
            config,
        ) {
            Ok(client) => Ok(client),
            Err(error) => Err(AppError::Client(error)),
        }
    }

    /// The client of the Durable Streams server.
    pub fn client(&self) -> (r: Result<DurableStreamsClient, AppError>)
        ensures
            match url_parsed(self@.durable_streams.base_url@) {
                Ok(text) => r is Ok && {
                    let client = r->Ok_0@;
                    &&& client.base.given == self@.durable_streams.base_url@
                    &&& client.base.text == text
                    &&& client.request_timeout == self@.durable_streams.request_timeout_ms
                        * NANOS_PER_MILLI
                    &&& default_policy(client.retry_policy)
                    &&& client.user_agent == Some(USER_AGENT@)
                },
                Err(source) => r matches Err(AppError::Client(error)) && error@
                    == (ErrorView::InvalidBaseUrl {
                    url: self@.durable_streams.base_url@,
                    source,
                }),
            },
    {
        let parsed = parse_url(self.config.durable_streams.base_url.as_str());
        self.client_with_parsed(parsed)
    }

    /// The streams of the configuration, with their topics resolved.
    pub fn runtimes(&self) -> (r: Vec<StreamRuntime>)
        ensures
            runtime_views(r@) == runtimes_of(self@),
    {
        let mut runtimes: Vec<StreamRuntime> = Vec::new();
        let mut i: usize = 0;
        while i < self.config.streams.len()
            invariant
                i <= self.config.streams.len(),
                runtimes.len() == i,
                forall|j: int|
                    0 <= j < i ==> (#[trigger] runtimes@[j])@ == runtimes_of(self.config)[j],
            decreases self.config.streams.len() - i,
        {
            runtimes.push(
                StreamRuntime::from_config(
                    &self.config.streams[i],
                    &self.config.targets,
                    &self.config.topic_mapping,
                ),
            );
            i += 1;
        }
        assert(runtime_views(runtimes@) =~= runtimes_of(self@));
        runtimes
    }

    /// The steps that check whether both sides can be reached, behind the given steps.
    fn run_preflight(&self, steps: &mut Vec<StartupStep>)
        ensures
            startup_views(final(steps)@) == startup_views(old(steps)@) + preflight_steps(self@),
    {
        let ghost before = startup_views(steps@);
        if !self.config.preflight.enabled {
            assert(startup_views(steps@) =~= before + preflight_steps(self@));
            return ;
        }
        let runtimes = self.runtimes();
        let ghost all = runtimes_of(self@);
        let mut topics: Vec<String> = Vec::new();
        let mut i: usize = 0;
        while i < runtimes.len()
            invariant
                i <= runtimes.len(),
                runtime_views(runtimes@) == all,
                topics.len() == i,
                forall|j: int| 0 <= j < i ==> (#[trigger] topics@[j])@ == all[j].topic,
                startup_views(steps@) == before + all.take(i as int).map_values(
                    |runtime: RuntimeView| StartupView::CheckStream { path: runtime.path },
                ),
            decreases runtimes.len() - i,
        {
            let runtime = &runtimes[i];
            assert(runtime@ == all[i as int]);
            let ghost earlier = startup_views(steps@);
            steps.push(StartupStep::CheckStream { path: runtime.path.clone() });
            topics.push(runtime.topic.clone());
            assert(startup_views(steps@) =~= earlier.push(
                StartupView::CheckStream { path: all[i as int].path },
            ));
            assert(startup_views(steps@) =~= before + all.take(i + 1).map_values(
                |runtime: RuntimeView| StartupView::CheckStream { path: runtime.path },
            ));
            i += 1;
        }
        let ghost earlier = startup_views(steps@);
        assert(all.take(runtimes.len() as int) =~= all);
        assert(views(topics@) =~= all.map_values(|runtime: RuntimeView| runtime.topic));
        steps.push(
            StartupStep::CheckTopics {
                topics,
                timeout: TimeSpan::from_millis(self.config.preflight.timeout_ms),
                require_topics_exist: self.config.preflight.require_topics_exist,
            },
        );
        assert(startup_views(steps@) =~= earlier.push(startup_views(steps@).last()));
        assert(startup_views(steps@) =~= before + preflight_steps(self@));
    }

    /// The steps that start the tasks, behind the given steps.
    fn start_tasks(&self, steps: &mut Vec<StartupStep>)
        ensures
            startup_views(final(steps)@) == startup_views(old(steps)@) + task_steps(self@),
    {
        let ghost before = startup_views(steps@);
        let runtimes = self.runtimes();
        let ghost all = runtimes_of(self@);
        let ghost forward = all.map_values(|runtime: RuntimeView| StartupView::Forward(runtime));
        let mut i: usize = 0;
        assert(before + forward.take(0) =~= before);
        while i < runtimes.len()
            invariant
                i <= runtimes.len(),
                runtime_views(runtimes@) == all,
                forward == all.map_values(|runtime: RuntimeView| StartupView::Forward(runtime)),
                startup_views(steps@) == before + forward.take(i as int),
            decreases runtimes.len() - i,
        {
            assert(runtimes@[i as int]@ == all[i as int]);
            let ghost earlier = startup_views(steps@);
            steps.push(StartupStep::Forward(runtimes[i].clone()));
            assert(startup_views(steps@) =~= earlier.push(forward[i as int]));
            assert(startup_views(steps@) =~= before + forward.take(i + 1));
            i += 1;
        }
        assert(forward.take(runtimes.len() as int) =~= forward);
        let ghost middle = startup_views(steps@);
        let ghost discover = self.config.discovery@.map_values(
            |discovery: DiscoveryConfig| StartupView::Discover(discovery),
        );
        let mut i: usize = 0;
        assert(middle + discover.take(0) =~= middle);
        while i < self.config.discovery.len()
            invariant
                i <= self.config.discovery.len(),
                discover == self.config.discovery@.map_values(
                    |discovery: DiscoveryConfig| StartupView::Discover(discovery),
                ),
                startup_views(steps@) == middle + discover.take(i as int),
            decreases self.config.discovery.len() - i,
        {
            let ghost earlier = startup_views(steps@);
            steps.push(StartupStep::Discover(self.config.discovery[i].clone()));
            assert(startup_views(steps@) =~= earlier.push(discover[i as int]));
            assert(startup_views(steps@) =~= middle + discover.take(i + 1));
            i += 1;
        }
        assert(discover.take(self.config.discovery.len() as int) =~= discover);
        assert(startup_views(steps@) =~= before + task_steps(self@));
    }

    /// The steps of the start.
    pub fn run(&self) -> (r: Startup)
        ensures
            r@ == startup_steps(self@),
    {
        let mut steps: Vec<StartupStep> = Vec::new();
        steps.push(StartupStep::Connect);
        steps.push(StartupStep::CreateSink);
        assert(startup_views(steps@) =~= connection_steps());
        self.run_preflight(&mut steps);
        let ghost ready = startup_views(steps@);
        match &self.config.offset_store.path {
            None => {
                steps.push(StartupStep::MissingStore);
                assert(startup_views(steps@) =~= ready + seq![StartupView::MissingStore]);
            },
            Some(path) => {
                steps.push(StartupStep::OpenStore { path: path.clone() });
                assert(startup_views(steps@) =~= ready + seq![StartupView::OpenStore { path: path@ }]);
                self.start_tasks(&mut steps);
            },
        }
        let r = Startup { steps, next: 0 };
        assert(r@ =~= startup_steps(self@));
        r
    }
}

/// Whether the step starts a task.
pub open spec fn starts_task(step: StartupView) -> bool {
    step is Forward || step is Discover
}

/// No task starts before the checks are done and the offsets have been read.
pub proof fn law_tasks_start_last(config: BridgeConfig, i: int, j: int)
    requires
        0 <= i < j < startup_steps(config).len(),
        starts_task(startup_steps(config)[i]),
    ensures
        starts_task(startup_steps(config)[j]),
        config.offset_store.path is Some,
{
    let ready = connection_steps() + preflight_steps(config);
    assert forall|k: int| 0 <= k < ready.len() implies !starts_task(#[trigger] ready[k]) by {}
    match opt_view(config.offset_store.path) {
        Some(path) => {
            let opened = ready + seq![StartupView::OpenStore { path }];
            assert(startup_steps(config) =~= opened + task_steps(config));
            assert(!starts_task(opened[ready.len() as int]));
            assert forall|k: int| 0 <= k < opened.len() implies !starts_task(#[trigger] opened[k]) by {
                if k < ready.len() {
                    assert(opened[k] == ready[k]);
                }
            }
            if i < opened.len() {
                assert(startup_steps(config)[i] == opened[i]);
            }
            assert(startup_steps(config)[j] == task_steps(config)[j - opened.len()]);
        },
        None => {
            assert(startup_steps(config) =~= ready + seq![StartupView::MissingStore]);
            if i < ready.len() {
                assert(startup_steps(config)[i] == ready[i]);
            }
        },
    }
}

/// The steps that are taken, where they come out so: those up to the first after which the start
/// does not go on.
pub open spec fn steps_taken(steps: Seq<StartupView>, outcomes: Seq<StepOutcome>) -> Seq<
    StartupView,
>
    decreases steps.len(),
{
    if steps.len() == 0 {
        Seq::empty()
    } else if goes_on(steps[0], outcomes[0]) {
        seq![steps[0]] + steps_taken(steps.drop_first(), outcomes.drop_first())
    } else {
        seq![steps[0]]
    }
}

proof fn lemma_taken_up_to(steps: Seq<StartupView>, outcomes: Seq<StepOutcome>, at: int)
    requires
        0 <= at < steps.len(),
        at < outcomes.len(),
        forall|i: int| 0 <= i < at ==> goes_on(#[trigger] steps[i], outcomes[i]),
        !goes_on(steps[at], outcomes[at]),
    ensures
        steps_taken(steps, outcomes) == steps.take(at + 1),
    decreases at,
{
    if at == 0 {
        assert(steps.take(1) =~= seq![steps[0]]);
    } else {
        let more = steps.drop_first();
        let more_outcomes = outcomes.drop_first();
        assert forall|i: int| 0 <= i < at - 1 implies goes_on(
            #[trigger] more[i],
            more_outcomes[i],
        ) by {
            assert(more[i] == steps[i + 1]);
        }
        lemma_taken_up_to(more, more_outcomes, at - 1);
        assert(steps.take(at + 1) =~= seq![steps[0]] + more.take(at));
    }
}

/// A check that fails ends the start: the first stream that does not answer, in the order of the
/// configuration, or else Kafka. The failure says which it was, and by then no offset has been
/// read and no task started.
pub proof fn law_failed_check_ends_the_start(
    config: BridgeConfig,
    outcomes: Seq<StepOutcome>,
    at: int,
    error: AppError,
)
    requires
        config.preflight.enabled,
        0 <= at <= config.streams@.len(),
        outcomes.len() > at + 2,
        forall|i: int| 0 <= i < at + 2 ==> #[trigger] outcomes[i] is Done,
        at < config.streams@.len() ==> outcomes[at + 2] is NoAnswer,
        at == config.streams@.len() ==> outcomes[at + 2] is NoSink,
        ends_with(startup_steps(config)[at + 2], outcomes[at + 2], error),
    ensures
        at < config.streams@.len() ==> (error matches AppError::PreflightStream {
            stream_path,
            source,
        } && stream_path@ == config.streams@[at].path@ && outcomes[at + 2] == StepOutcome::NoAnswer(
            source,
        )),
        at == config.streams@.len() ==> (error matches AppError::PreflightKafka(source)
            && outcomes[at + 2] == StepOutcome::NoSink(source)),
        ({
            let taken = steps_taken(startup_steps(config), outcomes);
            &&& taken == startup_steps(config).take(at + 3)
            &&& forall|i: int|
                0 <= i < taken.len() ==> !starts_task(#[trigger] taken[i]) && !(
                taken[i] is OpenStore)
        }),
{
    let steps = startup_steps(config);
    let checks = preflight_steps(config);
    let ready = connection_steps() + checks;
    assert(checks.len() == config.streams@.len() + 1);
    assert(steps.take(ready.len() as int) =~= ready);
    assert(forall|i: int| 0 <= i < ready.len() ==> #[trigger] steps[i] == ready[i]);
    assert(forall|i: int| 0 <= i < checks.len() ==> #[trigger] checks[i] == ready[i + 2]);
    assert forall|i: int| 0 <= i < ready.len() implies #[trigger] ready[i] is Connect
        || ready[i] is CreateSink || ready[i] is CheckStream || ready[i] is CheckTopics by {
        if i >= 2 {
            assert(checks[i - 2] == ready[i]);
        }
    }
    assert(steps[at + 2] == checks[at]);
    assert forall|i: int| 0 <= i < at + 2 implies goes_on(#[trigger] steps[i], outcomes[i]) by {
        assert(steps[i] == ready[i]);
    }
    lemma_taken_up_to(steps, outcomes, at + 2);
    let taken = steps.take(at + 3);
    assert forall|i: int| 0 <= i < taken.len() implies !starts_task(#[trigger] taken[i]) && !(
    taken[i] is OpenStore) by {
        assert(taken[i] == ready[i]);
    }
}

} // verus!
