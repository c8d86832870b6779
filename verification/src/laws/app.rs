//! What holds of the start of the bridge.
use crate::app::{
    ends_with, goes_on, runtimes_of, startup_steps, steps_taken, AppError, StartupView,
    StepOutcome,
};
use crate::bridge::runtime_of;
use crate::config::BridgeConfig;
use vstd::prelude::*;
use vstd::string::*;

verus! {

/// The streams that are forwarded are those of the configuration, in its order.
pub proof fn law_streams_in_order(config: BridgeConfig, i: int)
    requires
        0 <= i < config.streams@.len(),
    ensures
        runtimes_of(config).len() == config.streams@.len(),
        runtimes_of(config)[i] == runtime_of(
            config.streams@[i],
            config.targets@,
            config.topic_mapping,
        ),
        runtimes_of(config)[i].path == config.streams@[i].path@,
{
}

/// The start makes both connections, checks each stream and then all topics, where checks are to
/// be made, reads the offsets, and starts a task for each stream and for each control stream, all
/// in the order of the configuration. Without a place for the offsets it ends before the tasks.
pub proof fn law_steps_of_the_start(config: BridgeConfig, i: int)
    ensures
        ({
            let steps = startup_steps(config);
            let streams = config.streams@.len() as int;
            let checks = if config.preflight.enabled {
                streams + 1
            } else {
                0int
            };
            let store = 2 + checks;
            &&& steps[0] is Connect
            &&& steps[1] is CreateSink
            &&& config.preflight.enabled && 0 <= i < streams ==> steps[2 + i] == (
            StartupView::CheckStream { path: config.streams@[i].path@ })
            &&& config.preflight.enabled ==> (steps[2 + streams] matches StartupView::CheckTopics {
                topics,
                timeout,
                require_topics_exist,
            } && topics.len() == streams && (0 <= i < streams ==> topics[i] == runtimes_of(
                config,
            )[i].topic) && timeout == config.preflight.timeout_ms * 1_000_000
                && require_topics_exist == config.preflight.require_topics_exist)
            &&& config.offset_store.path is None ==> steps.len() == store + 1
                && steps[store] is MissingStore
            &&& config.offset_store.path matches Some(path) ==> {
                &&& steps.len() == store + 1 + streams + config.discovery@.len()
                &&& steps[store] == (StartupView::OpenStore { path: path@ })
                &&& 0 <= i < streams ==> steps[store + 1 + i] == StartupView::Forward(
                    runtimes_of(config)[i],
                )
                &&& 0 <= i < config.discovery@.len() ==> steps[store + 1 + streams + i]
                    == StartupView::Discover(config.discovery@[i])
            }
        }),
{
}

/// A step that was taken lets the start go on, unless it is the one that gives up. A step that was
/// not ends it.
pub proof fn law_only_taken_steps_go_on(step: StartupView, outcome: StepOutcome)
    ensures
        goes_on(step, outcome) <==> outcome is Done && step != StartupView::MissingStore,
{
}

/// A step that fails ends the start with a failure that says what failed, and why.
pub proof fn law_failures_of_steps(step: StartupView, outcome: StepOutcome, error: AppError)
    requires
        ends_with(step, outcome, error),
    ensures
        step is MissingStore <==> error is MissingOffsetStorePath,
        step matches StartupView::CheckStream { path } ==> outcome matches StepOutcome::NoAnswer(
            source,
        ) ==> (error matches AppError::PreflightStream { stream_path, source: reason }
            && stream_path@ == path && reason == source),
        step is CheckTopics && outcome is NoSink ==> error == AppError::PreflightKafka(
            outcome->NoSink_0,
        ),
        step is CreateSink && outcome is NoSink ==> error == AppError::Kafka(
            outcome->NoSink_0,
        ),
        step is OpenStore && outcome is NoStore ==> error == AppError::OffsetStore(
            outcome->NoStore_0,
        ),
        step is Connect && outcome is NoAnswer ==> error == AppError::Client(
            outcome->NoAnswer_0,
        ),
        !(step is MissingStore) && outcome is NoStream ==> error == AppError::Client(
            outcome->NoStream_0,
        ),
        !goes_on(step, outcome),
{
}

/// Where each step is taken the whole start is, unless there is no place for the offsets.
pub proof fn law_all_steps_are_taken(steps: Seq<StartupView>, outcomes: Seq<StepOutcome>)
    requires
        outcomes.len() >= steps.len(),
        forall|i: int| 0 <= i < steps.len() ==> !(#[trigger] steps[i] is MissingStore),
        forall|i: int| 0 <= i < outcomes.len() ==> #[trigger] outcomes[i] is Done,
    ensures
        steps_taken(steps, outcomes) == steps,
    decreases steps.len(),
{
    if steps.len() > 0 {
        let more = steps.drop_first();
        let rest = outcomes.drop_first();
        assert(forall|i: int| 0 <= i < more.len() ==> #[trigger] more[i] == steps[i + 1]);
        assert(forall|i: int| 0 <= i < rest.len() ==> #[trigger] rest[i] == outcomes[i + 1]);
        law_all_steps_are_taken(more, rest);
        assert(outcomes[0] is Done && !(steps[0] is MissingStore));
        assert(seq![steps[0]] + more =~= steps);
    }
}

} // verus!
