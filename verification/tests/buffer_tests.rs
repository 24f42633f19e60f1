use zen_monitor::buffer::TelemetryBuffer;
use zen_monitor::buffer::WINDOW_SIZE;

#[test]
fn fresh_buffer_is_full_of_zeros() {
    let b = TelemetryBuffer::new(0);
    let (t, c, r, g) = b.snapshot();
    assert_eq!(t.len(), WINDOW_SIZE);
    assert_eq!(c.len(), WINDOW_SIZE);
    assert_eq!(r.len(), WINDOW_SIZE);
    assert_eq!(g.len(), WINDOW_SIZE);
    assert!(t.iter().all(|&v| v == 0));
    assert!(c.iter().all(|&v| v == 0));
    assert!(r.iter().all(|&v| v == 0));
    assert!(g.iter().all(|&v| v == 0));
    assert_eq!(b.latest_cpu_centi(), 0);
    assert_eq!(b.latest_ram_centi(), 0);
    let reading = b.gpu_reading();
    assert_eq!(reading.usage_centi, 0);
    assert_eq!(reading.temp_c, 0);
    assert_eq!(reading.vram_total_mb, 0);
}

#[test]
fn streams_stay_aligned_through_ticks() {
    let mut b = TelemetryBuffer::new(1000);
    let mut now: u64 = 1000;
    for k in 0..300u64 {
        now += 600;
        assert!(b.fast_due(now));
        b.record_fast(now, k * 10, k, 100);
        let (t, c, r, g) = b.snapshot();
        assert_eq!(t.len(), WINDOW_SIZE);
        assert_eq!(c.len(), WINDOW_SIZE);
        assert_eq!(r.len(), WINDOW_SIZE);
        assert_eq!(g.len(), WINDOW_SIZE);
    }
}

#[test]
fn fast_path_not_due_within_interval() {
    let mut b = TelemetryBuffer::new(1000);
    assert!(!b.fast_due(1000));
    assert!(!b.fast_due(1200));
    assert!(!b.fast_due(1500));
    assert!(b.fast_due(1501));
    b.record_fast(1501, 4200, 1, 2);
    assert!(!b.fast_due(1501));
    assert!(!b.fast_due(2001));
    assert!(b.fast_due(2002));
}

#[test]
fn fast_sample_appends_one_row() {
    let mut b = TelemetryBuffer::new(1000);
    b.record_fast(1600, 1234, 50, 100);
    let (t, c, r, g) = b.snapshot();
    assert_eq!(t[WINDOW_SIZE - 1], 600);
    assert_eq!(c[WINDOW_SIZE - 1], 1234);
    assert_eq!(r[WINDOW_SIZE - 1], 5000);
    assert_eq!(g[WINDOW_SIZE - 1], 0);
    assert_eq!(t[0], 0);
    assert_eq!(b.latest_cpu_centi(), 1234);
    assert_eq!(b.latest_ram_centi(), 5000);
}

#[test]
fn oldest_row_is_evicted_in_order() {
    let mut b = TelemetryBuffer::new(0);
    let mut now: u64 = 0;
    for k in 0..WINDOW_SIZE as u64 {
        now += 501;
        b.record_fast(now, k + 1, 0, 0);
    }
    let (_, c, _, _) = b.snapshot();
    assert_eq!(c[0], 1);
    assert_eq!(c[WINDOW_SIZE - 1], WINDOW_SIZE as u64);
    now += 501;
    b.record_fast(now, 999, 0, 0);
    let (_, c, _, _) = b.snapshot();
    assert_eq!(c.len(), WINDOW_SIZE);
    assert_eq!(c[0], 2);
    assert_eq!(c[WINDOW_SIZE - 2], WINDOW_SIZE as u64);
    assert_eq!(c[WINDOW_SIZE - 1], 999);
}

#[test]
fn slow_timer_is_backdated_and_fires_once_per_interval() {
    let mut b = TelemetryBuffer::new(1000);
    assert!(b.slow_due(1000));
    b.record_slow(9000, None);
    assert!(!b.slow_due(9000));
    assert!(!b.slow_due(11000));
    assert!(b.slow_due(11001));
}

#[test]
fn both_paths_can_fire_on_the_same_tick() {
    let mut b = TelemetryBuffer::new(0);
    let now: u64 = 501;
    assert!(b.fast_due(now));
    assert!(b.slow_due(now));
    b.record_fast(now, 100, 1, 4);
    b.record_slow(now, Some(&b"10, 40, 8192, 2048".to_vec()));
    let (t, _, _, _) = b.snapshot();
    assert_eq!(t[t.len() - 1], 501);
    assert_eq!(b.gpu_reading().usage_centi, 1000);
}

#[test]
fn failed_poll_keeps_previous_reading() {
    let mut b = TelemetryBuffer::new(0);
    b.record_slow(0, Some(&b"45, 62, 8192, 3050".to_vec()));
    let before = b.gpu_reading();
    assert_eq!(before.usage_centi, 4500);
    b.record_slow(3000, None);
    assert_eq!(b.gpu_reading(), before);
}

#[test]
fn gpu_history_uses_last_known_reading() {
    let mut b = TelemetryBuffer::new(0);
    b.record_fast(501, 0, 0, 0);
    let (_, _, _, g) = b.snapshot();
    assert_eq!(g[WINDOW_SIZE - 1], 0);
    b.record_slow(600, Some(&b"33, 50, 8192, 4096".to_vec()));
    b.record_fast(1200, 0, 0, 0);
    let (_, _, _, g) = b.snapshot();
    assert_eq!(g[WINDOW_SIZE - 1], 3300);
    assert_eq!(b.latest_gpu_centi(), 3300);
}
