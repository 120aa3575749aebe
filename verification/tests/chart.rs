use velox::aggregation::{
    align_secs, align_timestamp, place_tick, shift_fits, tick_fits_exec, CandleAggregator, CandleTable, TickPlacement, TickRoute, UtcInstant,
    CHRONO_MAX_SECS, CHRONO_MIN_SECS,
};
use velox::chart::{grown_buffer_size, line_list, next_power_of_two_u64, OverlayManager, ViewHistory, DEFAULT_MAX_ZOOM_STACK};
use velox::gpu::{builtin_shader, gpu_label, Backend, BuiltinShader, NamedCache};
use velox::indicators::{Indicator, Macd, Vwap};

#[test]
fn line_list_breaks_at_gaps() {
    let pts = [Some(1), Some(2), Some(3), None, Some(4), None, Some(5), Some(6)];
    assert_eq!(line_list(&pts), vec![1, 2, 2, 3, 5, 6]);
    assert!(line_list::<u8>(&[]).is_empty());
    assert!(line_list(&[Some(1), None, Some(2)]).is_empty());
}

#[test]
fn zoom_history() {
    let mut h = ViewHistory::new(2);
    h.record_zoom(1);
    h.record_zoom(2);
    h.record_zoom(3);
    assert_eq!(h.len(), 2);
    h.record_reset(4);
    assert_eq!(h.undo(), Some(4));
    assert_eq!(h.undo(), Some(2));
    h.clear();
    assert_eq!(h.undo(), None);
    assert_eq!(DEFAULT_MAX_ZOOM_STACK, 32);
}

#[test]
fn overlays_by_name() {
    let mut m = OverlayManager::new();
    assert!(m.is_empty());
    m.add("SMA(20)", 1);
    m.add("EMA(9)", 2);
    m.add("SMA(20)", 3);
    assert_eq!(m.names(), vec!["SMA(20)".to_string(), "EMA(9)".to_string(), "SMA(20)".to_string()]);
    *m.item_mut(1) += 10;
    assert!(m.remove("SMA(20)"));
    assert_eq!(m.names(), vec!["EMA(9)".to_string(), "SMA(20)".to_string()]);
    assert_eq!(*m.item_mut(0), 12);
    assert!(!m.remove("RSI"));
    assert_eq!(m.len(), 2);
}

#[test]
fn buffer_growth() {
    assert_eq!(grown_buffer_size(1024, 512), None);
    assert_eq!(grown_buffer_size(1024, 1024), None);
    assert_eq!(grown_buffer_size(1024, 1025), Some(2048));
    assert_eq!(grown_buffer_size(0, 3), Some(4));
    assert_eq!(next_power_of_two_u64(0), 1);
    assert_eq!(next_power_of_two_u64(1 << 63), 1 << 63);
}

#[test]
fn candle_alignment() {
    assert_eq!(align_secs(125, 60), 120);
    assert_eq!(align_secs(-125, 60), -120);
    assert_eq!(align_secs(120, 60), 120);
    let t = UtcInstant { secs: 1_700_000_123, nanos: 5 };
    assert_eq!(align_timestamp(t, 60), UtcInstant { secs: 1_700_000_100, nanos: 0 });
    let start = UtcInstant { secs: 120, nanos: 0 };
    assert_eq!(place_tick(start, 60, UtcInstant { secs: 119, nanos: 999 }), TickPlacement::BeforeCandle);
    assert_eq!(place_tick(start, 60, UtcInstant { secs: 150, nanos: 0 }), TickPlacement::InCandle);
    assert_eq!(place_tick(start, 60, UtcInstant { secs: 180, nanos: 0 }), TickPlacement::ClosesCandle);
}

#[test]
fn indicator_readiness_and_backends() {
    let mut macd = Macd::new(12, 26, 9);
    assert!(!macd.is_ready());
    for _ in 0..33 {
        macd.record_update();
    }
    assert!(!macd.is_ready());
    macd.record_update();
    assert!(macd.is_ready());
    assert_eq!(macd.count(), 34);
    for _ in 0..6 {
        macd.record_update();
    }
    assert!(macd.is_ready());
    assert_eq!((macd.fast_period(), macd.slow_period(), macd.signal_period()), (12, 26, 9));
    macd.reset();
    assert!(!macd.is_ready());
    assert_eq!(macd.count(), 0);
    // never ready before a first value, whatever the periods
    for (f, sl, sg) in [(0, 0, 0), (0, 0, 1), (1, 0, 0), (0, 1, 0), (1, 1, 1)] {
        let mut tiny = Macd::new(f, sl, sg);
        assert!(!tiny.is_ready());
        tiny.record_update();
        assert!(tiny.is_ready());
    }
    // the slower period decides, whichever argument it is
    let mut m = Macd::new(26, 12, 1);
    for _ in 0..25 {
        m.record_update();
    }
    assert!(!m.is_ready());
    m.record_update();
    assert!(m.is_ready());
    let mut vwap = Vwap::new();
    assert_eq!(Indicator::<u32>::update(&mut vwap, 7), 7);
    assert!(Indicator::<u32>::is_ready(&vwap));
    Indicator::<u32>::reset(&mut vwap);
    assert_eq!(Backend::Vulkan.name(), "Vulkan");
    assert_eq!(Backend::Metal.name(), "Metal");
}

#[test]
fn named_cache_keeps_first_value() {
    let mut c = NamedCache::new();
    assert!(c.is_empty());
    assert!(c.insert_if_absent("candle", 1));
    assert!(!c.insert_if_absent("candle", 2));
    assert!(c.insert_if_absent("grid", 3));
    assert_eq!(c.get("candle"), Some(&1));
    assert_eq!(c.len(), 2);
    c.evict("candle");
    assert!(!c.contains("candle"));
    assert_eq!(c.get("grid"), Some(&3));
    assert!(c.insert_if_absent("candle", 4));
    assert_eq!(c.get("candle"), Some(&4));
    c.clear();
    assert_eq!(c.len(), 0);
    assert_eq!(builtin_shader("line"), Some(BuiltinShader::Line));
    assert_eq!(builtin_shader("text"), None);
    assert_eq!(gpu_label("shader_", "grid"), "shader_grid");
}

#[test]
fn alignment_outside_the_calendar_keeps_the_instant() {
    let t = UtcInstant { secs: i64::MAX - 5, nanos: 7 };
    assert_eq!(align_timestamp(t, 60), t);
}

fn at(secs: i64) -> UtcInstant {
    UtcInstant { secs, nanos: 0 }
}

/// (trade count, sum of prices) of a candle.
fn add_trade(t: &mut CandleTable<(u32, u32)>, slot: usize, price: u32) {
    let (n, sum) = t.acc(slot);
    t.set_acc(slot, (n + 1, sum + price));
}

fn feed(t: &mut CandleTable<(u32, u32)>, sym: &str, tf: i64, secs: i64, price: u32) -> Option<(UtcInstant, (u32, u32))> {
    match t.step(sym, tf, at(secs), (0, 0)) {
        TickRoute::Ignored { .. } => None,
        TickRoute::Added { slot } => {
            add_trade(t, slot, price);
            None
        }
        TickRoute::Closed { slot, start, finished, added } => {
            if added {
                add_trade(t, slot, price);
            }
            Some((start, finished))
        }
    }
}

#[test]
fn closing_tick_starts_the_next_candle() {
    let mut t = CandleTable::new();
    assert_eq!(feed(&mut t, "BTCUSDT", 60, 0, 1), None);
    assert_eq!(feed(&mut t, "BTCUSDT", 60, 60, 2), Some((at(0), (1, 1))));
    assert_eq!(feed(&mut t, "BTCUSDT", 60, 120, 3), Some((at(60), (1, 2))));
    assert_eq!(t.len(), 1);
    assert_eq!(t.start(0), at(120));
    assert_eq!(t.acc(0), (1, 3));
}

#[test]
fn candle_table_keys_by_symbol_and_period() {
    let mut t = CandleTable::new();
    assert_eq!(feed(&mut t, "BTCUSDT", 60, 30, 1), None);
    assert_eq!(feed(&mut t, "BTCUSDT", 300, 30, 1), None);
    assert_eq!(feed(&mut t, "ETHUSDT", 60, 45, 5), None);
    assert_eq!(t.len(), 3);
    assert_eq!(t.timeframe(1), 300);
    assert_eq!(feed(&mut t, "BTCUSDT", 60, 59, 2), None);
    assert_eq!(t.acc(0), (2, 3));
    // a late tick before the candle's start is ignored
    assert!(matches!(t.step("BTCUSDT", 60, at(-1), (0, 0)), TickRoute::Ignored { slot: 0 }));
    // a gap of several periods: the next candle is the tick's own period
    assert_eq!(feed(&mut t, "BTCUSDT", 60, 605, 4), Some((at(0), (2, 3))));
    assert_eq!(t.start(0), at(600));
    assert_eq!(t.acc(0), (1, 4));
    assert_eq!(t.acc(1), (1, 1));
    assert_eq!(t.acc(2), (1, 5));
}

#[test]
fn chrono_range_bounds() {
    assert_eq!(chrono::DateTime::<chrono::Utc>::MIN_UTC.timestamp(), CHRONO_MIN_SECS);
    assert_eq!(chrono::DateTime::<chrono::Utc>::MAX_UTC.timestamp(), CHRONO_MAX_SECS);
    assert!(chrono::DateTime::<chrono::Utc>::from_timestamp(CHRONO_MIN_SECS, 0).is_some());
    assert!(chrono::DateTime::<chrono::Utc>::from_timestamp(CHRONO_MIN_SECS - 1, 0).is_none());
    assert!(chrono::DateTime::<chrono::Utc>::from_timestamp(CHRONO_MAX_SECS, 0).is_some());
    assert!(chrono::DateTime::<chrono::Utc>::from_timestamp(CHRONO_MAX_SECS + 1, 0).is_none());
    // alignment falls back to the instant when the aligned start is out of range
    let low = UtcInstant { secs: CHRONO_MIN_SECS - 90, nanos: 1 };
    assert_eq!(align_timestamp(low, 60), low);
    // truncation moves instants before the epoch up to the period's end
    assert_eq!(align_timestamp(UtcInstant { secs: CHRONO_MIN_SECS - 30, nanos: 1 }, 60), at(CHRONO_MIN_SECS));
    assert_eq!(align_timestamp(at(CHRONO_MAX_SECS), 60), at(CHRONO_MAX_SECS - 59));
}

#[test]
fn shifting_and_fitting() {
    assert!(shift_fits(at(0), 60));
    assert!(!shift_fits(at(CHRONO_MAX_SECS - 59), 60));
    assert!(!shift_fits(at(0), i64::MAX / 1000 + 1));
    assert!(!shift_fits(at(i64::MAX), 1));
    assert!(tick_fits_exec(at(1_700_000_123), 60));
    assert!(!tick_fits_exec(at(5), 0));
    assert!(!tick_fits_exec(at(i64::MIN), -1));
    assert!(!tick_fits_exec(at(CHRONO_MAX_SECS), 60));
}

/// Feed one tick at `secs` with `price` through every timeframe; the
/// finished candles as (start, (trade count, price sum)).
fn process(g: &mut CandleAggregator<(u32, u32)>, sym: &str, secs: i64, price: u32) -> Vec<(UtcInstant, (u32, u32))> {
    let mut done = Vec::new();
    for r in g.process_tick(sym, at(secs), (0, 0)) {
        let slot = match r {
            TickRoute::Ignored { .. } => None,
            TickRoute::Added { slot } => Some(slot),
            TickRoute::Closed { slot, start, finished, added } => {
                done.push((start, finished));
                if added {
                    Some(slot)
                } else {
                    None
                }
            }
        };
        if let Some(i) = slot {
            let (n, sum) = g.acc(i);
            g.set_acc(i, (n + 1, sum + price));
        }
    }
    done
}

#[test]
fn aggregator_emits_each_period_once() {
    let mut g = CandleAggregator::new(&[60]);
    assert!(process(&mut g, "BTCUSDT", 0, 1).is_empty());
    assert_eq!(process(&mut g, "BTCUSDT", 60, 2), vec![(at(0), (1, 1))]);
    assert_eq!(process(&mut g, "BTCUSDT", 120, 3), vec![(at(60), (1, 2))]);
    assert_eq!(g.candle_count(), 1);
    assert_eq!(g.start(0), at(120));
}

#[test]
fn aggregator_over_several_timeframes() {
    let mut g = CandleAggregator::new(&[60, 300]);
    assert!(process(&mut g, "ETHUSDT", 10, 1).is_empty());
    assert!(process(&mut g, "ETHUSDT", 50, 2).is_empty());
    assert_eq!(process(&mut g, "ETHUSDT", 70, 3), vec![(at(0), (2, 3))]);
    assert_eq!(process(&mut g, "ETHUSDT", 310, 4), vec![(at(60), (1, 3)), (at(0), (3, 6))]);
    assert_eq!(g.candle_count(), 2);
    assert_eq!(g.acc(0), (1, 4));
    assert_eq!(g.acc(1), (1, 4));
    assert!(process(&mut g, "BNBUSDT", 320, 5).is_empty());
    assert_eq!(g.candle_count(), 4);
}
