use monitor_core::ai::Brain;
use monitor_core::handlers::{close_stream, get_metrics, ingest_metric, stream_metrics, Push, Viewer};
use monitor_core::history::{MetricLog, HISTORY_LIMIT};
use monitor_core::hub::{BroadcastHub, Delivery, DEFAULT_CAPACITY};
use monitor_core::shared::SystemMetric;
use monitor_core::state::AppState;

fn metric(host: &str, cpu: f32, timestamp: i64) -> SystemMetric {
    SystemMetric {
        host_id: host.to_string(),
        cpu_usage: cpu.to_bits(),
        ram_usage_mb: 0f32.to_bits(),
        disk_usage_percent: 0f32.to_bits(),
        net_rx_kb: 0f32.to_bits(),
        net_tx_kb: 0f32.to_bits(),
        gpu_usage: 0f32.to_bits(),
        gpu_temp: 0f32.to_bits(),
        gpu_vram_used_mb: 0f32.to_bits(),
        timestamp,
    }
}

fn state(capacity: usize) -> AppState {
    AppState::new(capacity, 2, Brain::new("key".to_string()))
}

fn timestamps(metrics: &[SystemMetric]) -> Vec<i64> {
    metrics.iter().map(|m| m.timestamp).collect()
}

#[test]
fn history_of_two_ingested_metrics_is_newest_first() {
    let mut state = state(DEFAULT_CAPACITY);
    ingest_metric(&mut state, metric("h1", 42.0, 1000), true);
    ingest_metric(&mut state, metric("h1", 50.0, 1001), true);
    let recent = state.metrics.history(2);
    assert_eq!(timestamps(&recent), vec![1001, 1000]);
    assert_eq!(f32::from_bits(recent[0].cpu_usage), 50.0);
    assert_eq!(f32::from_bits(recent[1].cpu_usage), 42.0);
    assert_eq!(recent[0].host_id, "h1");
}

#[test]
fn history_is_sorted_whatever_the_order_of_arrival() {
    let mut log = MetricLog::new();
    for (n, t) in [5i64, -3, 9, 0, 9, 2, i64::MIN, i64::MAX].iter().enumerate() {
        log.record(metric("h", n as f32, *t));
    }
    assert_eq!(log.len(), 8);
    let recent = log.history(8);
    assert_eq!(timestamps(&recent), vec![i64::MAX, 9, 9, 5, 2, 0, -3, i64::MIN]);
    // samples of one timestamp keep the order of their arrival
    assert_eq!(f32::from_bits(recent[1].cpu_usage), 2.0);
    assert_eq!(f32::from_bits(recent[2].cpu_usage), 4.0);
}

#[test]
fn history_takes_the_newest_and_no_more_than_asked() {
    let mut log = MetricLog::new();
    for t in [10i64, 40, 20, 50, 30] {
        log.record(metric("h", 0.0, t));
    }
    assert_eq!(timestamps(&log.history(3)), vec![50, 40, 30]);
    assert_eq!(timestamps(&log.history(0)), Vec::<i64>::new());
    assert_eq!(timestamps(&log.history(100)), vec![50, 40, 30, 20, 10]);
    assert_eq!(timestamps(&MetricLog::new().history(5)), Vec::<i64>::new());
}

#[test]
fn get_metrics_is_truncated_to_fifty() {
    let mut state = state(DEFAULT_CAPACITY);
    for t in 0..60i64 {
        ingest_metric(&mut state, metric("h", 0.0, t), true);
    }
    let recent = get_metrics(&state);
    assert_eq!(HISTORY_LIMIT, 50);
    assert_eq!(recent.len(), 50);
    assert_eq!(timestamps(&recent), (10..60i64).rev().collect::<Vec<i64>>());
}

#[test]
fn duplicate_submissions_are_recorded_twice() {
    let mut state = state(DEFAULT_CAPACITY);
    ingest_metric(&mut state, metric("h", 1.0, 7), true);
    ingest_metric(&mut state, metric("h", 1.0, 7), true);
    assert_eq!(state.metrics.len(), 2);
    assert_eq!(get_metrics(&state), vec![metric("h", 1.0, 7), metric("h", 1.0, 7)]);
}

#[test]
fn a_metric_that_was_not_persisted_is_still_published() {
    let mut state = state(DEFAULT_CAPACITY);
    let id = state.tx.subscribe().unwrap();
    let receivers = ingest_metric(&mut state, metric("h", 3.0, 11), false);
    assert_eq!(receivers, 1);
    assert_eq!(state.metrics.len(), 0);
    assert_eq!(get_metrics(&state), vec![]);
    assert_eq!(state.tx.receive(id), Delivery::Metric(metric("h", 3.0, 11)));
}

#[test]
fn every_subscriber_with_room_is_handed_a_published_metric() {
    let mut hub = BroadcastHub::new(2);
    assert_eq!(hub.capacity(), 2);
    let slow = hub.subscribe().unwrap();
    let fast = hub.subscribe().unwrap();
    assert_eq!((slow, fast), (0, 1));
    assert_eq!(hub.publish(metric("h", 1.0, 1)), 2);
    assert_eq!(hub.publish(metric("h", 2.0, 2)), 2);
    assert_eq!(hub.receive(fast), Delivery::Metric(metric("h", 1.0, 1)));
    // the slow subscriber's queue is full now, the fast one has room
    assert_eq!(hub.waiting(slow), Some(2));
    assert_eq!(hub.waiting(fast), Some(1));
    assert_eq!(hub.publish(metric("h", 3.0, 3)), 2);
    assert_eq!(hub.waiting(slow), Some(2));
    assert_eq!(hub.receive(fast), Delivery::Metric(metric("h", 2.0, 2)));
    assert_eq!(hub.receive(fast), Delivery::Metric(metric("h", 3.0, 3)));
    assert_eq!(hub.receive(fast), Delivery::Empty);
    // what the slow subscriber had queued comes first, then the count of what it missed
    assert_eq!(hub.receive(slow), Delivery::Metric(metric("h", 1.0, 1)));
    assert_eq!(hub.receive(slow), Delivery::Metric(metric("h", 2.0, 2)));
    assert_eq!(hub.receive(slow), Delivery::Lagged(1));
    assert_eq!(hub.receive(slow), Delivery::Empty);
}

#[test]
fn a_published_metric_keeps_its_place_in_line() {
    let mut hub = BroadcastHub::new(3);
    let id = hub.subscribe().unwrap();
    hub.publish(metric("h", 1.0, 1));
    hub.publish(metric("h", 2.0, 2));
    for t in 3..10 {
        hub.publish(metric("h", 0.0, t));
    }
    assert_eq!(hub.receive(id), Delivery::Metric(metric("h", 1.0, 1)));
    assert_eq!(hub.receive(id), Delivery::Metric(metric("h", 2.0, 2)));
    assert_eq!(hub.receive(id), Delivery::Metric(metric("h", 0.0, 3)));
    assert_eq!(hub.receive(id), Delivery::Lagged(6));
}

#[test]
fn publishing_without_subscribers_reaches_nobody() {
    let mut hub = BroadcastHub::new(DEFAULT_CAPACITY);
    assert_eq!(hub.subscriber_count(), 0);
    assert_eq!(hub.publish(metric("h", 1.0, 1)), 0);
    let late = hub.subscribe().unwrap();
    assert_eq!(hub.receive(late), Delivery::Empty);
}

#[test]
fn an_unknown_ticket_is_closed() {
    let mut hub = BroadcastHub::new(1);
    assert_eq!(hub.receive(7), Delivery::Closed);
    assert_eq!(hub.waiting(7), None);
    assert!(!hub.is_subscribed(7));
    assert!(!hub.unsubscribe(7));
    let id = hub.subscribe().unwrap();
    assert!(hub.is_subscribed(id));
    assert!(hub.unsubscribe(id));
    assert!(!hub.is_subscribed(id));
    assert_eq!(hub.receive(id), Delivery::Closed);
    // a ticket is not handed out twice
    assert_eq!(hub.subscribe(), Some(1));
}

#[test]
fn a_viewer_that_disconnects_leaves_the_subscriber_count_as_it_was() {
    let mut state = state(DEFAULT_CAPACITY);
    let (resident, _) = stream_metrics(&mut state, Viewer::Connecting);
    let before = state.tx.subscriber_count();
    assert_eq!(before, 1);
    let (viewer, push) = stream_metrics(&mut state, Viewer::Connecting);
    assert_eq!(push, Push::Idle);
    assert_eq!(state.tx.subscriber_count(), before + 1);
    ingest_metric(&mut state, metric("h", 1.0, 1), true);
    let (viewer, push) = stream_metrics(&mut state, viewer);
    assert_eq!(push, Push::Event(metric("h", 1.0, 1)));
    // the viewer disconnects in the middle of the stream
    assert_eq!(close_stream(&mut state, viewer), Viewer::Gone);
    let receivers = ingest_metric(&mut state, metric("h", 2.0, 2), true);
    assert_eq!(receivers, before);
    assert_eq!(state.tx.subscriber_count(), before);
    assert_eq!(resident, Viewer::Subscribed(0));
}

#[test]
fn a_stream_pushes_what_is_published_and_idles_in_between() {
    let mut state = state(4);
    let (viewer, push) = stream_metrics(&mut state, Viewer::Connecting);
    assert_eq!((viewer, push), (Viewer::Subscribed(0), Push::Idle));
    let (viewer, push) = stream_metrics(&mut state, Viewer::Subscribed(0));
    assert_eq!((viewer, push), (Viewer::Subscribed(0), Push::Idle));
    ingest_metric(&mut state, metric("a", 1.0, 1), false);
    ingest_metric(&mut state, metric("b", 2.0, 2), false);
    assert_eq!(stream_metrics(&mut state, Viewer::Subscribed(0)).1, Push::Event(metric("a", 1.0, 1)));
    assert_eq!(stream_metrics(&mut state, Viewer::Subscribed(0)).1, Push::Event(metric("b", 2.0, 2)));
    assert_eq!(stream_metrics(&mut state, Viewer::Subscribed(0)).1, Push::Idle);
}

#[test]
fn a_stream_ends_when_its_queue_overflowed() {
    let mut state = state(1);
    let (viewer, _) = stream_metrics(&mut state, Viewer::Connecting);
    ingest_metric(&mut state, metric("h", 1.0, 1), false);
    ingest_metric(&mut state, metric("h", 2.0, 2), false);
    let (viewer, push) = stream_metrics(&mut state, viewer);
    assert_eq!(push, Push::Event(metric("h", 1.0, 1)));
    let (viewer, push) = stream_metrics(&mut state, viewer);
    assert_eq!((viewer, push), (Viewer::Gone, Push::End));
    assert_eq!(state.tx.subscriber_count(), 0);
    assert_eq!(stream_metrics(&mut state, Viewer::Gone), (Viewer::Gone, Push::End));
}

#[test]
fn a_stream_whose_subscription_is_gone_ends() {
    let mut state = state(1);
    assert_eq!(stream_metrics(&mut state, Viewer::Subscribed(9)), (Viewer::Gone, Push::End));
    assert_eq!(close_stream(&mut state, Viewer::Connecting), Viewer::Gone);
    assert_eq!(close_stream(&mut state, Viewer::Subscribed(9)), Viewer::Gone);
    assert_eq!(state.tx.subscriber_count(), 0);
}

#[test]
fn cloning_a_metric_keeps_every_field() {
    let sample = SystemMetric {
        host_id: "node-7".to_string(),
        cpu_usage: 1.5f32.to_bits(),
        ram_usage_mb: 2.5f32.to_bits(),
        disk_usage_percent: 3.5f32.to_bits(),
        net_rx_kb: 4.5f32.to_bits(),
        net_tx_kb: 5.5f32.to_bits(),
        gpu_usage: 6.5f32.to_bits(),
        gpu_temp: 7.5f32.to_bits(),
        gpu_vram_used_mb: 8.5f32.to_bits(),
        timestamp: -12,
    };
    assert_eq!(sample.clone(), sample);
}

#[test]
fn a_hub_without_room_drops_every_sample() {
    let mut hub = BroadcastHub::new(0);
    let id = hub.subscribe().unwrap();
    assert_eq!(hub.publish(metric("h", 1.0, 1)), 1);
    assert_eq!(hub.publish(metric("h", 2.0, 2)), 1);
    assert_eq!(hub.waiting(id), Some(0));
    assert_eq!(hub.receive(id), Delivery::Lagged(2));
    assert_eq!(hub.receive(id), Delivery::Empty);
}
