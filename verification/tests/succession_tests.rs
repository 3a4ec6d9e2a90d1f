use wickeban_core::status::{SwarmAgentStatus, SwarmStatus};
use wickeban_core::swarm::{
    default_self_assessment, next_aggregation_action, succession_start, AggregationAction, AggregationEvent,
    SuccessionStart, MAX_GENERATIONS,
};

#[test]
fn succession_refused_at_generation_cap() {
    assert_eq!(
        succession_start(MAX_GENERATIONS, true),
        SuccessionStart::Refuse { agent_status: SwarmAgentStatus::Failed, swarm_status: SwarmStatus::Failed }
    );
    assert_eq!(
        succession_start(MAX_GENERATIONS + 3, false),
        SuccessionStart::Refuse { agent_status: SwarmAgentStatus::Failed, swarm_status: SwarmStatus::Failed }
    );
}

#[test]
fn succession_proceeds_below_cap() {
    assert_eq!(succession_start(MAX_GENERATIONS - 1, true), SuccessionStart::Proceed { from_run: true });
    assert_eq!(succession_start(0, false), SuccessionStart::Proceed { from_run: false });
    assert_eq!(default_self_assessment(), "Agent hit context threshold and was instructed to wrap up.");
}

#[test]
fn aggregation_fails_open() {
    assert_eq!(next_aggregation_action(AggregationEvent::AgentsRead(false)), AggregationAction::Finish(true));
    assert_eq!(next_aggregation_action(AggregationEvent::AgentsRead(true)), AggregationAction::SummarizeAgents);
    assert_eq!(next_aggregation_action(AggregationEvent::CompletedCounted(0)), AggregationAction::Finish(true));
    assert_eq!(next_aggregation_action(AggregationEvent::CompletedCounted(2)), AggregationAction::ReadTask);
    assert_eq!(next_aggregation_action(AggregationEvent::TaskRead(false)), AggregationAction::Finish(true));
    assert_eq!(next_aggregation_action(AggregationEvent::TaskRead(true)), AggregationAction::RunAggregator);
    assert_eq!(next_aggregation_action(AggregationEvent::AggregatorRan(false)), AggregationAction::Finish(true));
    assert_eq!(next_aggregation_action(AggregationEvent::AggregatorRan(true)), AggregationAction::ParseResult);
    assert_eq!(next_aggregation_action(AggregationEvent::ResultUnreadable), AggregationAction::Finish(true));
}

#[test]
fn aggregation_fails_on_low_coverage_only() {
    let low = AggregationEvent::ResultParsed { complete: false, coverage_pct: 49 };
    assert_eq!(next_aggregation_action(low), AggregationAction::Finish(false));
    let half = AggregationEvent::ResultParsed { complete: false, coverage_pct: 50 };
    assert_eq!(next_aggregation_action(half), AggregationAction::Finish(true));
    let done = AggregationEvent::ResultParsed { complete: true, coverage_pct: 10 };
    assert_eq!(next_aggregation_action(done), AggregationAction::Finish(true));
}
