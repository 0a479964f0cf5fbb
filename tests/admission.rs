use traffic_policy::{
    admits, handle_packet, random_delay_ms, random_packet, red_drop_probability, Admission,
    AllGoIn, BoundedQueue, ConfigError, Policy, Probability, ProbabilityError,
    RandomEarlyDetection, Threshold, MAX_CAPACITY, PACKET_BOUND, PROB_SCALE,
};

fn prob(millionths: u64) -> Probability {
    Probability::new(millionths).unwrap()
}

fn queue_of(capacity: usize, len: usize) -> BoundedQueue {
    let mut q = BoundedQueue::with_capacity(capacity);
    for i in 0..len {
        assert!(q.try_push(i as i32));
    }
    q
}

#[test]
fn probability_accepts_closed_unit_interval() {
    assert_eq!(prob(0).millionths(), 0);
    assert_eq!(prob(PROB_SCALE).millionths(), PROB_SCALE);
    assert_eq!(prob(800_000).millionths(), 800_000);
}

#[test]
fn probability_above_one_is_out_of_range() {
    assert_eq!(
        Probability::new(PROB_SCALE + 1).unwrap_err(),
        ProbabilityError::OutOfRange
    );
    assert!(Probability::new(u64::MAX).is_err());
}

#[test]
fn random_probability_is_in_range() {
    for _ in 0..1000 {
        assert!(Probability::random().millionths() < PROB_SCALE);
    }
}

#[test]
fn random_packet_and_delay_stay_below_bounds() {
    for _ in 0..1000 {
        let p = random_packet();
        assert!(p >= 0 && (p as u64) < PACKET_BOUND);
        assert!(random_delay_ms(5) < 5);
        assert_eq!(random_delay_ms(1), 0);
    }
}

#[test]
fn queue_push_until_full() {
    let mut q = BoundedQueue::with_capacity(2);
    assert_eq!(q.capacity(), 2);
    assert_eq!(q.length(), 0);
    assert!(q.try_push(7));
    assert_eq!(q.length(), 1);
    assert!(q.try_push(8));
    assert_eq!(q.length(), 2);
    assert!(!q.try_push(9));
    assert_eq!(q.length(), 2);
    assert_eq!(q.try_pop(), Some(7));
    assert_eq!(q.try_pop(), Some(8));
    assert_eq!(q.try_pop(), None);
}

#[test]
fn queue_is_first_in_first_out() {
    let mut q = BoundedQueue::new();
    assert_eq!(q.capacity(), MAX_CAPACITY);
    for i in 0..MAX_CAPACITY {
        assert!(q.try_push(i as i32));
    }
    assert!(!q.try_push(-1));
    assert_eq!(q.length(), MAX_CAPACITY);
    assert_eq!(q.try_pop(), Some(0));
    assert!(q.try_push(-1));
    for i in 1..MAX_CAPACITY {
        assert_eq!(q.try_pop(), Some(i as i32));
    }
    assert_eq!(q.try_pop(), Some(-1));
    assert_eq!(q.try_pop(), None);
    assert_eq!(q.length(), 0);
}

#[test]
fn zero_capacity_queue_refuses_everything() {
    let mut q = BoundedQueue::with_capacity(0);
    assert!(!q.try_push(1));
    assert_eq!(q.try_pop(), None);
}

#[test]
fn all_go_in_always_admits() {
    let mut policy = AllGoIn;
    let q = queue_of(3, 3);
    assert!(policy.allow(&q));
}

#[test]
fn threshold_boundary() {
    let t = Threshold::new(3);
    assert!(t.admits(0));
    assert!(t.admits(2));
    assert!(!t.admits(3));
    assert!(!t.admits(4));
    let mut t = Threshold::new(3);
    assert!(t.allow(&queue_of(5, 2)));
    assert!(!t.allow(&queue_of(5, 3)));
}

#[test]
fn red_with_negative_low_is_refused() {
    let q = BoundedQueue::new();
    let r = RandomEarlyDetection::new(&q, -1, 2_000_000, prob(500_000), prob(PROB_SCALE));
    assert_eq!(r.unwrap_err(), ConfigError::NegativeLow);
    let r = RandomEarlyDetection::new(&q, 0, 2_000_000, prob(500_000), prob(PROB_SCALE));
    assert!(r.is_ok());
}

#[test]
fn red_average_starts_at_queue_length() {
    let q = queue_of(10, 4);
    let red = RandomEarlyDetection::new(&q, 1, 2, prob(1), prob(1)).unwrap();
    assert_eq!(red.average(), 4 * PROB_SCALE as i64);
}

#[test]
fn red_average_weight_extremes() {
    let q = queue_of(10, 2);
    let mut keep = RandomEarlyDetection::new(&q, 0, 1, prob(0), prob(1)).unwrap();
    keep.update_average(9);
    assert_eq!(keep.average(), 2_000_000);
    let mut take = RandomEarlyDetection::new(&q, 0, 1, prob(PROB_SCALE), prob(1)).unwrap();
    take.update_average(9);
    assert_eq!(take.average(), 9_000_000);
}

#[test]
fn red_average_grows_with_weight() {
    let q = BoundedQueue::new();
    let mut light = RandomEarlyDetection::new(&q, 0, 1, prob(20_000), prob(1)).unwrap();
    let mut heavy = RandomEarlyDetection::new(&q, 0, 1, prob(500_000), prob(1)).unwrap();
    light.update_average(10);
    heavy.update_average(10);
    assert_eq!(light.average(), 200_000);
    assert_eq!(heavy.average(), 5_000_000);
    assert!(light.average() < heavy.average());
    light.update_average(10);
    assert_eq!(light.average(), 396_000);
}

#[test]
fn red_drop_curve_values() {
    let max = prob(800_000);
    let low = 20_000_000;
    let high = 30_000_000;
    assert_eq!(red_drop_probability(0, low, high, max).millionths(), 0);
    assert_eq!(red_drop_probability(low, low, high, max).millionths(), 0);
    assert_eq!(red_drop_probability(25_000_000, low, high, max).millionths(), 400_000);
    assert_eq!(red_drop_probability(high, low, high, max).millionths(), 800_000);
    assert_eq!(red_drop_probability(high + 1, low, high, max).millionths(), PROB_SCALE);
    let mut last = 0;
    for step in 0..=100 {
        let p = red_drop_probability(low + step * 100_000, low, high, max).millionths();
        assert!(p >= last);
        last = p;
    }
}

#[test]
fn red_drop_probability_follows_average() {
    let q = queue_of(10, 5);
    let mut red = RandomEarlyDetection::new(&q, 2_000_000, 6_000_000, prob(PROB_SCALE), prob(500_000)).unwrap();
    assert_eq!(red.drop_probability().millionths(), 375_000);
    let p = red.update(2);
    assert_eq!(red.average(), 2_000_000);
    assert_eq!(p.millionths(), 0);
}

#[test]
fn admits_when_dice_reaches_drop_probability() {
    assert!(admits(prob(0), prob(0)));
    assert!(admits(prob(500_000), prob(500_000)));
    assert!(!admits(prob(500_001), prob(500_000)));
    assert!(admits(prob(PROB_SCALE), prob(PROB_SCALE)));
}

#[test]
fn red_decides_with_given_dice() {
    let mut red = RandomEarlyDetection::new(&BoundedQueue::new(), 1_000_000, 3_000_000, prob(PROB_SCALE), prob(PROB_SCALE)).unwrap();
    let q = queue_of(10, 2);
    assert!(!red.decide_with_dice(&q, prob(499_999)));
    assert!(red.decide_with_dice(&q, prob(500_000)));
    let empty = BoundedQueue::new();
    assert!(red.decide_with_dice(&empty, prob(0)));
}

#[test]
fn red_admits_when_below_low_watermark() {
    let q = queue_of(10, 1);
    let mut red = RandomEarlyDetection::new(&q, 5_000_000, 8_000_000, prob(100_000), prob(PROB_SCALE)).unwrap();
    for _ in 0..100 {
        assert!(red.allow(&q));
    }
}

#[test]
fn scenario_threshold_admits_three_of_five() {
    let mut q = BoundedQueue::with_capacity(5);
    let mut policy = Threshold::new(3);
    let mut outcomes = Vec::new();
    for packet in 1..=5 {
        outcomes.push(handle_packet(&mut policy, &mut q, packet));
        assert!(q.length() <= 3);
    }
    assert_eq!(
        outcomes,
        vec![
            Admission::Admitted,
            Admission::Admitted,
            Admission::Admitted,
            Admission::Discarded,
            Admission::Discarded
        ]
    );
    assert_eq!(q.try_pop(), Some(1));
    assert_eq!(q.try_pop(), Some(2));
    assert_eq!(q.try_pop(), Some(3));
    assert_eq!(q.try_pop(), None);
}

#[test]
fn scenario_red_midpoint_drop_probability() {
    let max = prob(PROB_SCALE);
    for _ in 0..100 {
        let p = red_drop_probability(1_500_000, 1_000_000, 2_000_000, max);
        assert_eq!(p.millionths(), 500_000);
        assert!(admits(p, prob(500_000)));
        assert!(!admits(p, prob(499_999)));
    }
}

#[test]
fn scenario_all_go_in_loses_packet_on_full_queue() {
    let mut q = BoundedQueue::with_capacity(1);
    let mut policy = AllGoIn;
    assert_eq!(handle_packet(&mut policy, &mut q, 10), Admission::Admitted);
    assert_eq!(handle_packet(&mut policy, &mut q, 11), Admission::Lost);
    assert_eq!(q.length(), 1);
    assert_eq!(q.try_pop(), Some(10));
}

#[test]
fn red_always_refuses_above_high_watermark() {
    let q = queue_of(10, 5);
    let mut red = RandomEarlyDetection::new(&q, 1_000_000, 2_000_000, prob(PROB_SCALE), prob(100_000)).unwrap();
    for _ in 0..1000 {
        assert!(!red.allow(&q));
        assert_eq!(red.drop_probability().millionths(), PROB_SCALE);
    }
}

#[test]
fn red_always_refuses_at_drop_probability_one() {
    let q = queue_of(10, 2);
    let mut red = RandomEarlyDetection::new(&q, 1_000_000, 2_000_000, prob(PROB_SCALE), prob(PROB_SCALE)).unwrap();
    for _ in 0..1000 {
        assert!(!red.allow(&q));
    }
}

#[test]
fn red_average_rounds_down_small_weight_gaps() {
    let q = BoundedQueue::new();
    let mut a = RandomEarlyDetection::new(&q, 0, 1, prob(1), prob(1)).unwrap();
    let mut b = RandomEarlyDetection::new(&q, 0, 1, prob(2), prob(1)).unwrap();
    a.update_average(1);
    b.update_average(1);
    assert_eq!(a.average(), 1);
    assert_eq!(b.average(), 2);
}
