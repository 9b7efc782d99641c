use cadenza::engine::transport::{TempoMap, Transport, TransportState};
use cadenza::ports::playback::LoopRange;
use cadenza::score::model::TempoPoint;

fn point(tick: i64, us_per_quarter: u32) -> TempoPoint {
    TempoPoint { tick, us_per_quarter }
}

#[test]
fn tempo_map_defaults_to_120_bpm() {
    let map = TempoMap::new(480, Vec::new());
    assert_eq!(map.tick_to_micros(480), 500_000);
    assert_eq!(map.tick_to_micros(1), 1041);
    assert_eq!(map.micros_to_tick(500_000), 480);
    assert_eq!(map.micros_to_tick(1_000_000), 960);
    assert_eq!(map.us_per_quarter_at(12345), 500_000);
}

#[test]
fn tempo_map_accumulates_segment_starts() {
    let map = TempoMap::new(480, vec![point(0, 500_000), point(480, 250_000), point(960, 1_000_000)]);
    assert_eq!(map.tick_to_micros(480), 500_000);
    assert_eq!(map.tick_to_micros(720), 625_000);
    assert_eq!(map.tick_to_micros(960), 750_000);
    assert_eq!(map.tick_to_micros(1440), 1_750_000);
    assert_eq!(map.micros_to_tick(625_000), 720);
    assert_eq!(map.micros_to_tick(750_000), 960);
    assert_eq!(map.micros_to_tick(1_750_000), 1440);
    assert_eq!(map.us_per_quarter_at(479), 500_000);
    assert_eq!(map.us_per_quarter_at(480), 250_000);
    assert_eq!(map.us_per_quarter_at(5000), 1_000_000);
}

#[test]
fn tempo_map_sorts_points_and_prepends_origin() {
    // The first point is not at tick 0, so a default point is put in front.
    let map = TempoMap::new(480, vec![point(960, 250_000), point(480, 1_000_000)]);
    assert_eq!(map.us_per_quarter_at(0), 500_000);
    assert_eq!(map.us_per_quarter_at(480), 1_000_000);
    assert_eq!(map.us_per_quarter_at(960), 250_000);
    assert_eq!(map.tick_to_micros(960), 1_500_000);
}

#[test]
fn tempo_map_before_the_first_segment_runs_backwards() {
    let map = TempoMap::new(480, Vec::new());
    assert_eq!(map.tick_to_micros(-480), -500_000);
    assert_eq!(map.micros_to_tick(-500_000), -480);
}

#[test]
fn new_transport_is_stopped_at_the_origin() {
    let transport = Transport::new(480, 48_000, Vec::new());
    assert_eq!(transport.state(), TransportState::Stopped);
    assert_eq!(transport.now_tick(), 0);
    assert_eq!(transport.now_sample(), 0);
    assert_eq!(transport.sample_rate_hz(), 48_000);
    assert_eq!(transport.tempo_multiplier(), 1_000_000);
}

#[test]
fn tick_to_sample_at_default_tempo() {
    let transport = Transport::new(480, 48_000, Vec::new());
    assert_eq!(transport.tick_to_sample(0), 0);
    assert_eq!(transport.tick_to_sample(1), 50);
    assert_eq!(transport.tick_to_sample(480), 24_000);
    assert_eq!(transport.tick_to_sample(960), 48_000);
    assert_eq!(transport.sample_to_tick(24_000), 480);
    assert_eq!(transport.sample_to_tick(50), 1);
}

#[test]
fn negative_tick_saturates_to_the_origin() {
    let mut transport = Transport::new(480, 48_000, Vec::new());
    assert_eq!(transport.tick_to_sample(-480), 0);
    transport.set_origin_sample(1000);
    assert_eq!(transport.tick_to_sample(-480), 1000);
    assert_eq!(transport.sample_to_tick(10), 0);
}

#[test]
fn round_trip_is_within_one_tick() {
    let transport = Transport::new(480, 48_000, Vec::new());
    for tick in [0i64, 1, 2, 3, 7, 100, 479, 480, 481, 12_345, 1_000_000, 2_147_483_648] {
        let back = transport.sample_to_tick(transport.tick_to_sample(tick));
        assert!((back - tick).abs() <= 1, "tick {} came back as {}", tick, back);
    }
}

#[test]
fn doubling_the_multiplier_halves_the_samples() {
    let mut slow = Transport::new(480, 48_000, vec![point(0, 500_000), point(960, 300_000)]);
    let mut fast = Transport::new(480, 48_000, vec![point(0, 500_000), point(960, 300_000)]);
    slow.set_tempo_multiplier(750_000);
    fast.set_tempo_multiplier(1_500_000);
    for tick in [1i64, 5, 480, 961, 5000, 123_457] {
        let single = slow.tick_to_sample(tick) as i64;
        let double = fast.tick_to_sample(tick) as i64;
        assert!((2 * double - single).abs() <= 2, "tick {}", tick);
    }
    assert_eq!(fast.tick_to_sample(480), 16_000);
    assert_eq!(slow.tick_to_sample(480), 32_000);
}

#[test]
fn multiplier_is_held_at_a_tenth_or_more() {
    let mut transport = Transport::new(480, 48_000, Vec::new());
    transport.set_tempo_multiplier(5);
    assert_eq!(transport.tempo_multiplier(), 100_000);
    assert_eq!(transport.tick_to_sample(480), 240_000);
    transport.set_tempo_multiplier(2_000_000);
    assert_eq!(transport.tempo_multiplier(), 2_000_000);
    assert_eq!(transport.tick_to_sample(480), 12_000);
}

#[test]
fn seek_moves_tick_and_sample() {
    let mut transport = Transport::new(480, 48_000, Vec::new());
    transport.seek(960);
    assert_eq!(transport.now_tick(), 960);
    assert_eq!(transport.now_sample(), 48_000);
}

#[test]
fn align_binds_the_current_tick_to_the_clock() {
    let mut transport = Transport::new(480, 48_000, Vec::new());
    transport.seek(480);
    transport.align_to_sample_time(100_000);
    assert_eq!(transport.now_sample(), 100_000);
    assert_eq!(transport.now_tick(), 480);
    assert_eq!(transport.tick_to_sample(480), 100_000);
    assert_eq!(transport.tick_to_sample(960), 124_000);
    assert_eq!(transport.sample_to_tick(124_000), 960);
}

#[test]
fn set_tempo_multiplier_and_sample_rate_keep_the_sample() {
    let mut transport = Transport::new(480, 48_000, Vec::new());
    transport.seek(960);
    transport.set_tempo_multiplier(2_000_000);
    assert_eq!(transport.now_sample(), 48_000);
    assert_eq!(transport.tick_to_sample(960), 48_000);
    assert_eq!(transport.tick_to_sample(1920), 72_000);
    transport.set_sample_rate(96_000);
    assert_eq!(transport.sample_rate_hz(), 96_000);
    assert_eq!(transport.now_sample(), 48_000);
    assert_eq!(transport.tick_to_sample(960), 48_000);
}

#[test]
fn sync_follows_the_clock() {
    let mut transport = Transport::new(480, 48_000, Vec::new());
    transport.sync_to_sample_time(36_000);
    assert_eq!(transport.now_sample(), 36_000);
    assert_eq!(transport.now_tick(), 720);
}

#[test]
fn advance_only_moves_while_playing() {
    let mut transport = Transport::new(480, 48_000, Vec::new());
    transport.advance_by_samples(24_000);
    assert_eq!(transport.now_sample(), 0);
    transport.play();
    assert_eq!(transport.state(), TransportState::Playing);
    transport.advance_by_samples(24_000);
    assert_eq!(transport.now_sample(), 24_000);
    assert_eq!(transport.now_tick(), 480);
    transport.pause();
    assert_eq!(transport.state(), TransportState::Paused);
    transport.advance_by_samples(24_000);
    assert_eq!(transport.now_tick(), 480);
}

#[test]
fn advance_wraps_at_the_end_of_the_loop() {
    let mut transport = Transport::new(480, 48_000, Vec::new());
    transport.set_loop(Some(LoopRange { start_tick: 240, end_tick: 720 }));
    transport.play();
    transport.advance_by_samples(35_000);
    assert_eq!(transport.now_tick(), 700);
    transport.advance_by_samples(1_000);
    assert_eq!(transport.now_tick(), 240);
    assert_eq!(transport.now_sample(), 12_000);
}

#[test]
fn stop_returns_to_the_loop_start_or_zero() {
    let mut transport = Transport::new(480, 48_000, Vec::new());
    transport.play();
    transport.seek(960);
    transport.stop();
    assert_eq!(transport.state(), TransportState::Stopped);
    assert_eq!(transport.now_tick(), 0);
    transport.set_loop(Some(LoopRange { start_tick: 240, end_tick: 720 }));
    transport.seek(960);
    transport.stop();
    assert_eq!(transport.now_tick(), 240);
    assert_eq!(transport.now_sample(), 12_000);
}

#[test]
fn ms_to_ticks_uses_the_tempo_at_the_position() {
    let mut transport =
        Transport::new(480, 48_000, vec![point(0, 500_000), point(960, 250_000)]);
    assert_eq!(transport.ms_to_ticks(1000), 960);
    assert_eq!(transport.ms_to_ticks(-500), -480);
    transport.seek(960);
    assert_eq!(transport.ms_to_ticks(1000), 1920);
}

#[test]
fn update_tempo_map_keeps_the_sample() {
    let mut transport = Transport::new(480, 48_000, Vec::new());
    transport.seek(480);
    transport.update_tempo_map(vec![point(0, 1_000_000)]);
    assert_eq!(transport.now_sample(), 24_000);
    assert_eq!(transport.now_tick(), 480);
    // Tick 480 now takes a second, so the origin cannot go back far enough.
    assert_eq!(transport.tick_to_sample(480), 48_000);
}
