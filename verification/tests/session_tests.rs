use ermis_call_node_wasm::session::{
    after_try_send, fixed_secret_key, PacketCounters, SendDecision, TrySendOutcome,
};

#[test]
fn secret_key_of_right_length() {
    let key: Vec<u8> = (0u8..32).collect();
    let fixed = fixed_secret_key(Some(key.clone())).unwrap();
    assert_eq!(fixed.to_vec(), key);
}

#[test]
fn secret_key_of_wrong_length() {
    assert_eq!(fixed_secret_key(Some(vec![1u8; 31])), None);
    assert_eq!(fixed_secret_key(Some(vec![1u8; 33])), None);
    assert_eq!(fixed_secret_key(Some(vec![])), None);
    assert_eq!(fixed_secret_key(None), None);
}

#[test]
fn packet_counters_report_deltas() {
    let mut c = PacketCounters::new();
    assert_eq!((c.lost_packets, c.sent_packets), (0, 0));
    assert_eq!(c.since_last_check(2, 100), (2, 100));
    assert_eq!(c.since_last_check(5, 150), (3, 50));
    assert_eq!(c.since_last_check(5, 150), (0, 0));
    assert_eq!((c.lost_packets, c.sent_packets), (5, 150));
}

#[test]
fn packet_checks_add_up() {
    let mut split = PacketCounters::new();
    let (l1, s1) = split.since_last_check(3, 40);
    let (l2, s2) = split.since_last_check(10, 90);
    let mut whole = PacketCounters::new();
    assert_eq!(whole.since_last_check(10, 90), (l1 + l2, s1 + s2));
}

#[test]
fn full_queue_drops_oldest() {
    assert_eq!(after_try_send(TrySendOutcome::Full), SendDecision::DropOldestAndRetry);
    assert_eq!(after_try_send(TrySendOutcome::Sent), SendDecision::Done);
    assert_eq!(after_try_send(TrySendOutcome::Disconnected), SendDecision::Done);
}

/// Runs the drop-oldest policy against a queue that only the test touches.
fn send_with_policy(q: &mut std::collections::VecDeque<u32>, cap: usize, data: u32) {
    loop {
        let outcome = if q.len() < cap { TrySendOutcome::Sent } else { TrySendOutcome::Full };
        match after_try_send(outcome) {
            SendDecision::Done => {
                if outcome == TrySendOutcome::Sent {
                    q.push_back(data);
                }
                return;
            }
            SendDecision::DropOldestAndRetry => {
                q.pop_front();
            }
        }
    }
}

#[test]
fn drop_oldest_keeps_newest_frames() {
    let cap = 60;
    let mut q = std::collections::VecDeque::new();
    for frame in 0..100u32 {
        send_with_policy(&mut q, cap, frame);
        assert!(q.len() <= cap);
        assert_eq!(q.back(), Some(&frame));
    }
    let expected: Vec<u32> = (40..100).collect();
    assert_eq!(q.into_iter().collect::<Vec<_>>(), expected);
}
