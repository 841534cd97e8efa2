use frame_limiter_profiler::encode_row;
use frame_limiter_profiler::expected_sleep_us;
use frame_limiter_profiler::header_row;
use frame_limiter_profiler::skew_us;
use frame_limiter_profiler::target_frame_duration_us;
use frame_limiter_profiler::FrameLimiterProfiler;
use frame_limiter_profiler::FrameTimingRow;
use frame_limiter_profiler::ProfilerError;

fn row(
    frame_duration_us: u64,
    work_us: u64,
    actual_sleep_us: u64,
) -> FrameTimingRow {
    let expected_sleep_us = expected_sleep_us(frame_duration_us, work_us);
    FrameTimingRow {
        frame_duration_us,
        work_us,
        expected_sleep_us,
        actual_sleep_us,
        skew_us: skew_us(actual_sleep_us, expected_sleep_us),
    }
}

#[test]
fn target_frame_duration_divides_one_second() {
    assert_eq!(target_frame_duration_us(1), 1_000_000);
    assert_eq!(target_frame_duration_us(30), 33_333);
    assert_eq!(target_frame_duration_us(60), 16_666);
    assert_eq!(target_frame_duration_us(144), 6_944);
    assert_eq!(target_frame_duration_us(1_000_000), 1);
    assert_eq!(target_frame_duration_us(3_000_000), 0);
}

#[test]
fn expected_sleep_is_remaining_budget() {
    assert_eq!(expected_sleep_us(16_666, 5_000), 11_666);
    assert_eq!(expected_sleep_us(16_666, 16_666), 0);
    assert_eq!(expected_sleep_us(16_666, 0), 16_666);
}

#[test]
fn expected_sleep_saturates_at_zero() {
    assert_eq!(expected_sleep_us(33_333, 40_000), 0);
    assert_eq!(expected_sleep_us(0, 1), 0);
    assert_eq!(expected_sleep_us(0, 0), 0);
}

#[test]
fn skew_is_signed_difference() {
    assert_eq!(skew_us(11_000, 11_666), -666);
    assert_eq!(skew_us(12_000, 11_000), 1_000);
    assert_eq!(skew_us(0, 0), 0);
    assert_eq!(skew_us(u64::MAX, 0), u64::MAX as i128);
    assert_eq!(skew_us(0, u64::MAX), -(u64::MAX as i128));
}

#[test]
fn set_same_rate_twice_behaves_as_once() {
    let mut once = FrameLimiterProfiler::new(60).unwrap();
    let mut twice = FrameLimiterProfiler::new(60).unwrap();
    once.set_frame_duration(30).unwrap();
    twice.set_frame_duration(30).unwrap();
    twice.set_frame_duration(30).unwrap();
    once.mark_sleep_start(100, 5_100);
    twice.mark_sleep_start(100, 5_100);
    let row_once = once.compute_and_store_frame_timings(20_100).unwrap();
    let row_twice = twice.compute_and_store_frame_timings(20_100).unwrap();
    assert_eq!(row_once, row_twice);
    assert_eq!(row_once.frame_duration_us, 33_333);
}

#[test]
fn sixty_fps_frame_with_short_work() {
    let mut p = FrameLimiterProfiler::new(60).unwrap();
    p.mark_sleep_start(0, 5_000);
    let r = p.compute_and_store_frame_timings(16_000).unwrap();
    assert_eq!(r.frame_duration_us, 16_666);
    assert_eq!(r.work_us, 5_000);
    assert_eq!(r.expected_sleep_us, 11_666);
    assert_eq!(r.actual_sleep_us, 11_000);
    assert_eq!(r.skew_us, -666);
    let line = encode_row(&r);
    assert_eq!(
        std::str::from_utf8(&line).unwrap(),
        "16.67,5.00,11.666,11.000,-0.666\n"
    );
}

#[test]
fn thirty_fps_frame_with_work_over_budget() {
    let mut p = FrameLimiterProfiler::new(30).unwrap();
    p.mark_sleep_start(0, 40_000);
    let r = p.compute_and_store_frame_timings(40_000).unwrap();
    assert_eq!(r.frame_duration_us, 33_333);
    assert_eq!(r.work_us, 40_000);
    assert_eq!(r.expected_sleep_us, 0);
    assert_eq!(r.actual_sleep_us, 0);
    assert_eq!(r.skew_us, 0);
    let line = encode_row(&r);
    assert_eq!(
        std::str::from_utf8(&line).unwrap(),
        "33.33,40.00,0.000,0.000,0.000\n"
    );
}

#[test]
fn zero_rate_is_rejected_everywhere() {
    assert_eq!(
        FrameLimiterProfiler::new(0).unwrap_err(),
        ProfilerError::InvalidRate
    );
    let mut p = FrameLimiterProfiler::new(60).unwrap();
    assert_eq!(
        p.set_frame_duration(0).unwrap_err(),
        ProfilerError::InvalidRate
    );
    p.mark_sleep_start(0, 1_000);
    let r = p.compute_and_store_frame_timings(2_000).unwrap();
    assert_eq!(r.frame_duration_us, 16_666);
}

#[test]
fn compute_without_mark_fails() {
    let mut p = FrameLimiterProfiler::new(60).unwrap();
    assert_eq!(
        p.compute_and_store_frame_timings(123).unwrap_err(),
        ProfilerError::NoPendingSample
    );
}

#[test]
fn compute_consumes_the_pending_sample() {
    let mut p = FrameLimiterProfiler::new(60).unwrap();
    p.mark_sleep_start(0, 1_000);
    p.compute_and_store_frame_timings(2_000).unwrap();
    assert_eq!(
        p.compute_and_store_frame_timings(3_000).unwrap_err(),
        ProfilerError::NoPendingSample
    );
}

#[test]
fn mark_overwrites_a_pending_sample() {
    let mut p = FrameLimiterProfiler::new(60).unwrap();
    p.mark_sleep_start(0, 1_000);
    p.mark_sleep_start(500, 2_000);
    let r = p.compute_and_store_frame_timings(3_000).unwrap();
    assert_eq!(r.work_us, 1_500);
    assert_eq!(r.actual_sleep_us, 1_000);
}

#[test]
fn header_names_the_five_fields() {
    assert_eq!(
        header_row(),
        "frame_duration_ms,frame_work_ms,expected_sleep_ms,actual_sleep_ms,skew_ms"
    );
}

#[test]
fn all_zero_row_encoding() {
    let line = encode_row(&row(0, 0, 0));
    assert_eq!(std::str::from_utf8(&line).unwrap(), "0.00,0.00,0.000,0.000,0.000\n");
}

#[test]
fn two_decimal_fields_round_half_up() {
    let line = encode_row(&row(16_666, 16_664, 0));
    let text = std::str::from_utf8(&line).unwrap().to_string();
    let fields: Vec<&str> = text.trim_end().split(',').collect();
    assert_eq!(fields[0], "16.67");
    assert_eq!(fields[1], "16.66");
    let line = encode_row(&row(5, 4, 0));
    let text = std::str::from_utf8(&line).unwrap().to_string();
    let fields: Vec<&str> = text.trim_end().split(',').collect();
    assert_eq!(fields[0], "0.01");
    assert_eq!(fields[1], "0.00");
}

/// Reads a millisecond field with two or three decimal places back as
/// signed microseconds.
fn parse_ms_field_to_us(field: &str) -> i128 {
    let (negative, digits) = match field.strip_prefix('-') {
        Some(rest) => (true, rest),
        None => (false, field),
    };
    let (whole, frac) = digits.split_once('.').unwrap();
    let scale: i128 = match frac.len() {
        2 => 10,
        3 => 1,
        other => panic!("unexpected fraction width {other}"),
    };
    let value = whole.parse::<i128>().unwrap() * 1000 + frac.parse::<i128>().unwrap() * scale;
    if negative {
        -value
    } else {
        value
    }
}

#[test]
fn parsing_a_row_back_reproduces_the_values() {
    let cases = [
        row(16_666, 5_000, 11_000),
        row(33_333, 40_000, 0),
        row(0, 0, 0),
        row(1_000_000, 999_999, 7),
        row(6_944, 6_000, 1_005),
        row(u64::MAX, u64::MAX, u64::MAX),
    ];
    for r in cases {
        let line = encode_row(&r);
        let text = std::str::from_utf8(&line).unwrap();
        assert!(text.ends_with('\n'));
        let fields: Vec<&str> = text.trim_end().split(',').collect();
        assert_eq!(fields.len(), 5);
        let parsed: Vec<i128> = fields.iter().map(|f| parse_ms_field_to_us(f)).collect();
        // Two decimal places: within half of a hundredth of a millisecond.
        assert!((parsed[0] - r.frame_duration_us as i128).abs() <= 5);
        assert!((parsed[1] - r.work_us as i128).abs() <= 5);
        // Three decimal places: exact at microsecond resolution.
        assert_eq!(parsed[2], r.expected_sleep_us as i128);
        assert_eq!(parsed[3], r.actual_sleep_us as i128);
        assert_eq!(parsed[4], r.skew_us);
    }
}

#[test]
fn small_rows_parse_back_as_decimal_fractions() {
    let r = row(16_666, 5_000, 11_000);
    let line = encode_row(&r);
    let text = std::str::from_utf8(&line).unwrap();
    let parsed: Vec<f64> = text.trim_end().split(',').map(|f| f.parse().unwrap()).collect();
    assert!((parsed[0] - 16.666).abs() <= 0.005);
    assert!((parsed[1] - 5.0).abs() <= 0.005);
    assert_eq!(parsed[2], 11.666);
    assert_eq!(parsed[3], 11.0);
    assert_eq!(parsed[4], -0.666);
}

#[test]
fn error_variants_are_distinct() {
    let all = [
        ProfilerError::InvalidRate,
        ProfilerError::SinkUnavailable,
        ProfilerError::SinkWriteFailed,
        ProfilerError::NoPendingSample,
    ];
    for (i, a) in all.iter().enumerate() {
        for (j, b) in all.iter().enumerate() {
            assert_eq!(i == j, a == b);
        }
    }
}
