use velox::ring_buffer::{next_power_of_two, RingBuffer};

#[derive(Debug, Clone, Copy, PartialEq)]
struct TestTick {
    symbol: [u8; 8],
    price: f64,
    volume: f64,
    conditions: u32,
}

#[derive(Debug, Clone, Copy, PartialEq)]
enum TestEvent {
    Tick(TestTick),
}

fn make_tick(price: f64) -> TestTick {
    TestTick { symbol: *b"BTCUSD\0\0", price, volume: 1.0, conditions: 0 }
}

#[test]
fn test_push_pop() {
    let mut buf = RingBuffer::new(1024);
    let tick = TestTick { symbol: *b"ES      ", price: 4500.25, volume: 100.0, conditions: 0 };
    assert!(buf.push(TestEvent::Tick(tick)));
    assert!(!buf.is_empty());
    assert_eq!(buf.len(), 1);

    let popped = buf.pop();
    assert!(popped.is_some());
    assert!(buf.is_empty());
}

#[test]
fn test_buffer_full() {
    let mut buf = RingBuffer::new(4);
    let tick = TestTick { symbol: *b"ES      ", price: 4500.0, volume: 1.0, conditions: 0 };
    assert!(buf.push(TestEvent::Tick(tick)));
    assert!(buf.push(TestEvent::Tick(tick)));
    assert!(buf.push(TestEvent::Tick(tick)));
    assert!(buf.push(TestEvent::Tick(tick)));
    assert!(!buf.push(TestEvent::Tick(tick)));
}

#[test]
fn test_pop_n_returns_up_to_max() {
    let mut buf = RingBuffer::new(1024);
    for i in 0..10 {
        assert!(buf.push(TestEvent::Tick(make_tick(100.0 + i as f64))));
    }
    let mut batch = Vec::new();
    let count = buf.pop_n(&mut batch, 5);
    assert_eq!(count, 5);
    assert_eq!(batch.len(), 5);
    assert_eq!(buf.len(), 5);
}

#[test]
fn test_pop_n_all_events() {
    let mut buf = RingBuffer::new(1024);
    for i in 0..5 {
        assert!(buf.push(TestEvent::Tick(make_tick(100.0 + i as f64))));
    }
    let mut batch = Vec::new();
    let count = buf.pop_n(&mut batch, 100);
    assert_eq!(count, 5);
    assert_eq!(batch.len(), 5);
    assert!(buf.is_empty());
}

#[test]
fn test_pop_n_preserves_order() {
    let mut buf = RingBuffer::new(1024);
    for i in 0..5 {
        assert!(buf.push(TestEvent::Tick(make_tick(100.0 + i as f64))));
    }
    let mut batch = Vec::new();
    buf.pop_n(&mut batch, 5);
    for (i, event) in batch.iter().enumerate() {
        let TestEvent::Tick(tick) = event;
        assert!((tick.price - (100.0 + i as f64)).abs() < 1e-6);
    }
}

#[test]
fn test_pop_n_empty_buffer() {
    let mut buf: RingBuffer<TestEvent> = RingBuffer::new(1024);
    let mut batch = Vec::new();
    let count = buf.pop_n(&mut batch, 10);
    assert_eq!(count, 0);
    assert!(batch.is_empty());
}

#[test]
fn test_pop_n_exact_wrap_around() {
    let mut buf = RingBuffer::new(4);
    for i in 0..4 {
        assert!(buf.push(TestEvent::Tick(make_tick(100.0 + i as f64))));
    }
    let mut batch = Vec::new();
    assert_eq!(buf.pop_n(&mut batch, 3), 3);
    assert_eq!(buf.len(), 1);
    for i in 0..3 {
        assert!(buf.push(TestEvent::Tick(make_tick(200.0 + i as f64))));
    }
    batch.clear();
    assert_eq!(buf.pop_n(&mut batch, 4), 4);
    assert_eq!(batch.len(), 4);
    let TestEvent::Tick(first) = &batch[0];
    assert!((first.price - 103.0).abs() < 1e-6);
    for (i, event) in batch.iter().enumerate().skip(1) {
        let TestEvent::Tick(tick) = event;
        let expected_price = 199.0 + i as f64;
        assert!((tick.price - expected_price).abs() < 1e-6);
    }
    assert!(buf.is_empty());
}

#[test]
fn test_pop_n_zero_max() {
    let mut buf = RingBuffer::new(1024);
    assert!(buf.push(TestEvent::Tick(make_tick(100.0))));
    let mut batch = Vec::new();
    let count = buf.pop_n(&mut batch, 0);
    assert_eq!(count, 0);
    assert!(batch.is_empty());
    assert_eq!(buf.len(), 1);
}

#[test]
fn ring_capacity_rounds_up_to_power_of_two() {
    let buf: RingBuffer<u32> = RingBuffer::new(5);
    assert_eq!(buf.capacity(), 8);
    let buf: RingBuffer<u32> = RingBuffer::new(0);
    assert_eq!(buf.capacity(), 1);
    assert_eq!(next_power_of_two(1000), 1024);
    assert_eq!(next_power_of_two(1024), 1024);
    assert_eq!(next_power_of_two(1), 1);
}

#[test]
fn ring_is_first_in_first_out() {
    let mut buf = RingBuffer::new(2);
    assert!(buf.push(1u32));
    assert!(buf.push(2u32));
    assert!(!buf.push(3u32));
    assert_eq!(buf.pop(), Some(1));
    assert!(buf.push(4u32));
    assert_eq!(buf.pop(), Some(2));
    assert_eq!(buf.pop(), Some(4));
    assert_eq!(buf.pop(), None);
    assert_eq!(buf.len(), 0);
}

#[test]
fn ring_pop_n_matches_repeated_pop() {
    let mut a = RingBuffer::new(8);
    let mut b = RingBuffer::new(8);
    for x in 0..6u32 {
        assert!(a.push(x));
        assert!(b.push(x));
    }
    let mut batch = vec![99u32];
    assert_eq!(a.pop_n(&mut batch, 4), 4);
    let mut popped = vec![99u32];
    for _ in 0..4 {
        popped.push(b.pop().unwrap());
    }
    assert_eq!(batch, popped);
    assert_eq!(a.len(), b.len());
}

#[test]
fn refused_push_changes_nothing() {
    let mut rb: RingBuffer<u32> = RingBuffer::new(3);
    assert_eq!(rb.capacity(), 4);
    for i in 0..4 {
        assert!(rb.push(i));
        assert_eq!(rb.len(), (i + 1) as usize);
    }
    assert!(!rb.push(99));
    assert_eq!(rb.len(), 4);
    assert_eq!(rb.pop(), Some(0));
    assert!(rb.push(4));
    let mut out = Vec::new();
    assert_eq!(rb.pop_n(&mut out, 10), 4);
    assert_eq!(out, vec![1, 2, 3, 4]);
}

#[test]
fn pipeline_counters() {
    let mut s = velox::pipeline::PipelineStats::new();
    s.record_event();
    s.record_event();
    s.record_candle();
    assert_eq!((s.ticks_processed(), s.candles_produced()), (2, 1));
    s.reset();
    assert_eq!((s.ticks_processed(), s.candles_produced()), (0, 0));
}
