//! Options, time, maps and published metrics.

use simplex::assoc::AssocMap;
use simplex::block::SlotIndex;
use simplex::chain::{ShardIdent, MASTERCHAIN_ID, SHARD_FULL};
use simplex::options::{DoubleBits, OptionsError, RestartRecommitStrategy, SessionOptions};
use simplex::prometheus_publisher::{
    build_labels, is_invalid, sanitize_name, series_of, MetricUsage, PrometheusLabels,
    SessionIdentity,
};
use simplex::time::{TimePoint, TimeSpan, TIME_POINT_MAX, TIME_POINT_MIN, TIME_SPAN_MAX};

fn fault(change: impl Fn(&mut SessionOptions)) -> Option<OptionsError> {
    let mut options = SessionOptions::default();
    change(&mut options);
    options.validate().err()
}

#[test]
fn defaults_can_be_used() {
    let o = SessionOptions::default();
    assert_eq!(o.validate(), Ok(()));
    assert_eq!(o.proto_version, 0);
    assert_eq!(o.timeout_increase_factor, DoubleBits(1.05f64.to_bits()));
    assert_eq!(o.max_backoff_delay, TimeSpan::from_millis(100_000));
    assert_eq!(o.slots_per_leader_window, 1);
    assert_eq!(o.target_rate, TimeSpan::from_millis(1_000));
    assert_eq!(o.first_block_timeout, TimeSpan::from_millis(3_000));
    assert_eq!(o.max_block_size, 4 << 20);
    assert_eq!(o.max_collated_data_size, 4 << 20);
    assert_eq!(o.restart_recommit_strategy, RestartRecommitStrategy::default());
    assert_eq!(o.standstill_timeout, TimeSpan::from_millis(10_000));
    assert_eq!(o.health_stall_warning_secs, 15);
    assert_eq!(o.health_parent_aging_error_secs, 120);
}

#[test]
fn unusable_options_are_named() {
    let zero = TimeSpan::zero();
    assert_eq!(fault(|o| o.slots_per_leader_window = 0), Some(OptionsError::SlotsPerLeaderWindow));
    assert_eq!(
        fault(|o| o.timeout_increase_factor = DoubleBits(0.99f64.to_bits())),
        Some(OptionsError::TimeoutIncreaseFactor)
    );
    assert_eq!(fault(|o| o.target_rate = zero), Some(OptionsError::TargetRate));
    assert_eq!(fault(|o| o.max_block_size = 0), Some(OptionsError::MaxBlockSize));
    assert_eq!(fault(|o| o.max_collated_data_size = 0), Some(OptionsError::MaxCollatedDataSize));
    assert_eq!(fault(|o| o.max_backoff_delay = zero), Some(OptionsError::MaxBackoffDelay));
    assert_eq!(fault(|o| o.first_block_timeout = zero), Some(OptionsError::FirstBlockTimeout));
    assert_eq!(fault(|o| o.collation_retry_timeout = zero), Some(OptionsError::CollationRetryTimeout));
    assert_eq!(fault(|o| o.max_precollated_blocks = 1), Some(OptionsError::MaxPrecollatedBlocks));
    assert_eq!(fault(|o| o.health_alert_cooldown = zero), Some(OptionsError::HealthAlertCooldown));
    assert_eq!(fault(|o| o.health_stall_warning_secs = 0), Some(OptionsError::HealthStallWarning));
    assert_eq!(fault(|o| o.health_stall_error_secs = 14), Some(OptionsError::HealthStallError));
    assert_eq!(
        fault(|o| o.health_parent_aging_warning_secs = 0),
        Some(OptionsError::HealthParentAgingWarning)
    );
    assert_eq!(
        fault(|o| o.health_parent_aging_error_secs = 29),
        Some(OptionsError::HealthParentAgingError)
    );
    assert_eq!(
        fault(|o| {
            o.target_rate = zero;
            o.slots_per_leader_window = 0;
        }),
        Some(OptionsError::SlotsPerLeaderWindow)
    );
}

#[test]
fn masterchain_has_no_lag_threshold() {
    let master = ShardIdent { workchain_id: MASTERCHAIN_ID, prefix: SHARD_FULL };
    let shard = ShardIdent { workchain_id: 0, prefix: SHARD_FULL };
    let mut o = SessionOptions::default();
    assert_eq!(o.validate_for_shard(&master), Ok(()));
    o.empty_block_mc_lag_threshold = Some(8);
    assert_eq!(
        o.validate_for_shard(&master),
        Err(OptionsError::EmptyBlockMcLagThreshold(8))
    );
    assert_eq!(o.validate_for_shard(&shard), Ok(()));
    o.max_block_size = 0;
    assert_eq!(o.validate_for_shard(&shard), Err(OptionsError::MaxBlockSize));
}

#[test]
fn factors_are_compared_like_floats() {
    for x in [
        0.0f64, -0.0, 0.5, 0.999_999, 1.0, 1.000_001, 2.0, -1.0, -5.0, f64::INFINITY,
        f64::NEG_INFINITY, f64::NAN, f64::MIN_POSITIVE, f64::MAX, f64::MIN,
    ] {
        assert_eq!(DoubleBits(x.to_bits()).is_below_one(), x < 1.0);
    }
}

#[test]
fn time_is_bounded() {
    let t = TimePoint { nanos: 100 };
    let d = TimeSpan { nanos: 30 };
    assert_eq!(t.checked_add(d), Some(TimePoint { nanos: 130 }));
    assert_eq!(t.add_or_same(d), TimePoint { nanos: 130 });
    let last = TimePoint { nanos: TIME_POINT_MAX };
    assert_eq!(last.checked_add(d), None);
    assert_eq!(last.add_or_same(d), last);
    assert_eq!(t.later_of(last), last);
    assert_eq!(t.earlier_of(last), t);
    assert_eq!(t.sub_or_epoch(d), TimePoint { nanos: 70 });
    assert_eq!(TimePoint::epoch().sub_or_epoch(d), TimePoint { nanos: -30 });
    let first = TimePoint { nanos: TIME_POINT_MIN };
    assert_eq!(first.sub_or_epoch(d), TimePoint::epoch());
    assert_eq!(last.duration_since(first), Some(TimeSpan { nanos: TIME_SPAN_MAX }));
    assert_eq!(last.duration_since(t), Some(TimeSpan { nanos: TIME_POINT_MAX as u128 - 100 }));
    assert_eq!(t.moved_on(d), TimePoint { nanos: 130 });
    assert_eq!(t.duration_since(last), None);
    assert_eq!(TimeSpan::from_millis(3), TimeSpan { nanos: 3_000_000 });
    assert!(TimeSpan::zero().is_zero() && !d.is_zero());
    assert_eq!(d.saturating_mul(3), TimeSpan { nanos: 90 });
    assert_eq!(d.saturating_add(d), TimeSpan { nanos: 60 });
    let longest = TimeSpan { nanos: TIME_SPAN_MAX };
    assert_eq!(longest.saturating_mul(2), longest);
    assert_eq!(longest.saturating_add(d), longest);
}

#[test]
fn maps_keep_one_value_for_each_key() {
    let mut m: AssocMap<SlotIndex, u8> = AssocMap::new();
    assert!(m.is_empty());
    assert_eq!(m.insert(SlotIndex(1), 10), None);
    assert_eq!(m.insert(SlotIndex(2), 20), None);
    assert_eq!(m.insert(SlotIndex(1), 11), Some(10));
    assert_eq!(m.len(), 2);
    assert_eq!(m.get(&SlotIndex(1)), Some(&11));
    assert_eq!(m.get(&SlotIndex(3)), None);
    assert!(m.contains_key(&SlotIndex(2)));
    let mut keys = m.keys();
    keys.sort();
    assert_eq!(keys, vec![SlotIndex(1), SlotIndex(2)]);
    m.retain(|k, v| k.0 == 1 || *v == 99);
    assert_eq!(m.remove(&SlotIndex(2)), None);
    assert_eq!(m.remove(&SlotIndex(1)), Some(11));
    m.insert(SlotIndex(4), 1);
    m.clear();
    assert!(m.is_empty());
}

#[test]
fn names_are_cleaned() {
    assert_eq!(sanitize_name("simplex_votes.in:total"), "ton_node_simplex_votes_in_total");
    assert_eq!(sanitize_name("votes"), "ton_node_simplex_votes");
    assert_eq!(sanitize_name("ton_node_simplex_votes"), "ton_node_simplex_votes");
    assert_eq!(sanitize_name(""), "ton_node_simplex_");
    assert!(is_invalid('.') && is_invalid(':') && !is_invalid('_') && !is_invalid('a'));
}

#[test]
fn published_names_are_published_under_themselves() {
    let name = sanitize_name("simplex_a.b:c");
    assert_eq!(sanitize_name(&name), name);
    assert_eq!(sanitize_name("ton_node_simplex_x.y"), sanitize_name("x.y"));
    for key in ["simplex.x", "simplex_simplex_x", "ton_node_simplex_ton:node.simplex_y", "simplex_"] {
        let name = sanitize_name(key);
        assert_eq!(sanitize_name(&name), name);
    }
    assert_eq!(sanitize_name("simplex.x"), "ton_node_simplex_x");
    assert_eq!(sanitize_name("simplex_simplex_x"), "ton_node_simplex_x");
    assert_eq!(sanitize_name("ton_node_simplex_ton:node.simplex_y"), "ton_node_simplex_y");
    assert_eq!(sanitize_name("x_simplex_y"), "ton_node_simplex_x_simplex_y");
}

#[test]
fn published_names_are_valid() {
    for key in ["simplex_receiver_main_queue.posts", "9:a.B", "ton_node_simplex_simplex_1", "x"] {
        let name = sanitize_name(key);
        assert!(name.starts_with(|c: char| c.is_ascii_alphabetic()));
        assert!(name.chars().all(|c| c.is_ascii_alphanumeric() || c == '_'));
    }
}

#[test]
fn sessions_are_labelled() {
    let who = SessionIdentity { shard: "0:8000", session_id8: "deadbeef" };
    let labels = build_labels(PrometheusLabels::ShardOnly, who);
    assert_eq!(labels, vec![("shard", String::from("0:8000"))]);
    let labels = build_labels(PrometheusLabels::ShardAndSessionId, who);
    assert_eq!(
        labels,
        vec![("shard", String::from("0:8000")), ("session_id", String::from("deadbeef"))]
    );
}

#[test]
fn metrics_are_counters_or_gauges() {
    let s = series_of("simplex_votes", MetricUsage::Counter).unwrap();
    assert_eq!(s.name, "ton_node_simplex_votes");
    assert!(s.is_counter);
    let s = series_of("simplex_load", MetricUsage::Percents).unwrap();
    assert!(!s.is_counter);
    assert!(!series_of("x", MetricUsage::Derivative).unwrap().is_counter);
    assert!(!series_of("x", MetricUsage::Float).unwrap().is_counter);
    assert!(!series_of("x", MetricUsage::Latency).unwrap().is_counter);
    assert!(series_of("votes.speed", MetricUsage::Derivative).is_none());
    assert!(series_of("votes.speeds", MetricUsage::Counter).is_some());
    assert!(series_of("ed", MetricUsage::Counter).is_some());
}
