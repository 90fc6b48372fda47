use feeding_tube::feed::decode_xml_entities;
use feeding_tube::num::{hold, millions_in_tenths, nearest_quotient};
use feeding_tube::time::{get_relative_date, relative_date_between};
use feeding_tube::video::{format_duration, format_views};

fn now() -> i64 {
    chrono::Utc::now().timestamp()
}

// format_duration

#[test]
fn test_format_duration_none() {
    assert_eq!(format_duration(None), "--:--");
}

#[test]
fn test_format_duration_zero() {
    assert_eq!(format_duration(Some(0)), "--:--");
}

#[test]
fn test_format_duration_seconds_only() {
    assert_eq!(format_duration(Some(45)), "0:45");
}

#[test]
fn test_format_duration_minutes_and_seconds() {
    assert_eq!(format_duration(Some(125)), "2:05");
}

#[test]
fn test_format_duration_exact_minute() {
    assert_eq!(format_duration(Some(60)), "1:00");
}

#[test]
fn test_format_duration_with_hours() {
    assert_eq!(format_duration(Some(3661)), "1:01:01");
}

#[test]
fn test_format_duration_large() {
    assert_eq!(format_duration(Some(7200)), "2:00:00");
}

#[test]
fn format_duration_of_a_negative_length_has_no_hours() {
    assert_eq!(format_duration(Some(-5)), "0:-5");
    assert_eq!(format_duration(Some(-3725)), "-2:-5");
    assert_eq!(format_duration(Some(-60)), "-1:00");
}

#[test]
fn format_duration_of_the_extremes() {
    assert_eq!(format_duration(Some(i64::MAX)), "2562047788015215:30:07");
    assert_eq!(format_duration(Some(i64::MIN)), "-30:-8");
}

// format_views

#[test]
fn test_format_views_none() {
    assert_eq!(format_views(None), "");
}

#[test]
fn test_format_views_small() {
    assert_eq!(format_views(Some(500)), "500");
}

#[test]
fn test_format_views_thousands() {
    assert_eq!(format_views(Some(1_500)), "1K");
}

#[test]
fn test_format_views_exact_thousand() {
    assert_eq!(format_views(Some(1_000)), "1K");
}

#[test]
fn test_format_views_millions() {
    assert_eq!(format_views(Some(2_500_000)), "2.5M");
}

#[test]
fn test_format_views_exact_million() {
    assert_eq!(format_views(Some(1_000_000)), "1.0M");
}

#[test]
fn test_format_views_zero() {
    assert_eq!(format_views(Some(0)), "0");
}

#[test]
fn test_format_views_999() {
    assert_eq!(format_views(Some(999)), "999");
}

#[test]
fn format_views_rounds_to_the_nearest_tenth() {
    assert_eq!(format_views(Some(1_949_999)), "1.9M");
    assert_eq!(format_views(Some(1_950_001)), "2.0M");
    assert_eq!(format_views(Some(1_250_000)), "1.2M");
    assert_eq!(format_views(Some(1_750_000)), "1.8M");
    assert_eq!(format_views(Some(999_999)), "999K");
    assert_eq!(format_views(Some(12_345_678)), "12.3M");
}

#[test]
fn nearest_quotient_takes_a_half_to_the_even_side() {
    assert_eq!(nearest_quotient(5, 2), 2);
    assert_eq!(nearest_quotient(7, 2), 4);
    assert_eq!(nearest_quotient(10, 4), 2);
    assert_eq!(nearest_quotient(14, 4), 4);
    assert_eq!(nearest_quotient(11, 4), 3);
    assert_eq!(nearest_quotient(9, 4), 2);
    assert_eq!(nearest_quotient(0, 7), 0);
}

#[test]
fn hold_keeps_what_53_digits_can_write() {
    assert_eq!(hold(0), 0);
    assert_eq!(hold(1_234_567), 1_234_567);
    assert_eq!(hold(9_007_199_254_740_992), 9_007_199_254_740_992);
    assert_eq!(hold(9_007_199_254_740_993), 9_007_199_254_740_992);
    assert_eq!(hold(9_007_199_254_740_995), 9_007_199_254_740_996);
    assert_eq!(hold(u64::MAX), 18_446_744_073_709_551_616);
}

#[test]
fn millions_in_tenths_of_plain_counts() {
    assert_eq!(millions_in_tenths(1_000_000), 10);
    assert_eq!(millions_in_tenths(2_500_000), 25);
    assert_eq!(millions_in_tenths(12_345_678), 123);
    assert_eq!(millions_in_tenths(1_250_000), 12);
    assert_eq!(millions_in_tenths(1_750_000), 18);
}

fn in_floating_point(count: u64) -> String {
    format!("{:.1}M", count as f64 / 1_000_000.0)
}

#[test]
fn format_views_takes_a_half_as_binary_fractions_hold_it() {
    assert_eq!(format_views(Some(1_050_000)), in_floating_point(1_050_000));
    assert_eq!(format_views(Some(1_050_000)), "1.1M");
    assert_eq!(format_views(Some(1_150_000)), "1.1M");
    assert_eq!(format_views(Some(1_350_000)), "1.4M");
    assert_eq!(format_views(Some(1_450_000)), "1.4M");
    assert_eq!(format_views(Some(2_050_000)), "2.0M");
}

#[test]
fn format_views_agrees_with_floating_point_at_every_half_step() {
    let mut k: u64 = 21;
    while k < 400_000 {
        let c = k * 50_000;
        assert_eq!(format_views(Some(c)), in_floating_point(c), "{}", c);
        assert_eq!(format_views(Some(c - 1)), in_floating_point(c - 1), "{}", c - 1);
        assert_eq!(format_views(Some(c + 1)), in_floating_point(c + 1), "{}", c + 1);
        k += 1;
    }
}

#[test]
fn format_views_agrees_with_floating_point_on_large_counts() {
    let edges: [u64; 12] = [
        9_007_199_254_740_991,
        9_007_199_254_740_992,
        9_007_199_254_740_993,
        9_007_199_254_740_994,
        9_007_199_254_740_995,
        18_014_398_509_481_985,
        18_014_398_509_481_987,
        4_503_599_627_370_496,
        4_503_599_627_350_000,
        9_223_372_036_854_775_807,
        18_446_744_073_709_551_615,
        18_446_744_073_709_550_591,
    ];
    for c in edges {
        assert_eq!(format_views(Some(c)), in_floating_point(c), "{}", c);
    }
    assert_eq!(format_views(Some(u64::MAX)), "18446744073709.6M");
    let mut c: u64 = 0x9E37_79B9_7F4A_7C15;
    let mut n: u32 = 0;
    while n < 200_000 {
        c = c.wrapping_mul(6_364_136_223_846_793_005).wrapping_add(1_442_695_040_888_963_407);
        let sample = c >> (n % 44);
        if sample >= 1_000_000 {
            assert_eq!(format_views(Some(sample)), in_floating_point(sample), "{}", sample);
        }
        let half = sample / 50_000 * 50_000;
        if half >= 1_000_000 {
            assert_eq!(format_views(Some(half)), in_floating_point(half), "{}", half);
        }
        n += 1;
    }
}

// decode_xml_entities

#[test]
fn test_decode_xml_entities_amp() {
    assert_eq!(decode_xml_entities("foo &amp; bar"), "foo & bar");
}

#[test]
fn test_decode_xml_entities_lt_gt() {
    assert_eq!(decode_xml_entities("&lt;b&gt;"), "<b>");
}

#[test]
fn test_decode_xml_entities_quotes() {
    assert_eq!(decode_xml_entities("&quot;hello&quot;"), "\"hello\"");
}

#[test]
fn test_decode_xml_entities_apos() {
    assert_eq!(decode_xml_entities("it&#39;s"), "it's");
    assert_eq!(decode_xml_entities("it&apos;s"), "it's");
}

#[test]
fn test_decode_xml_entities_no_entities() {
    assert_eq!(decode_xml_entities("plain text"), "plain text");
}

#[test]
fn test_decode_xml_entities_multiple() {
    assert_eq!(decode_xml_entities("&lt;a&gt; &amp; &lt;b&gt;"), "<a> & <b>");
}

#[test]
fn decode_xml_entities_goes_entity_by_entity() {
    // `&amp;` is written out first, so what it leaves is read again.
    assert_eq!(decode_xml_entities("&amp;lt;"), "<");
    assert_eq!(decode_xml_entities("&amp;amp;"), "&amp;");
    assert_eq!(decode_xml_entities("日本 &amp; 語"), "日本 & 語");
    assert_eq!(decode_xml_entities(""), "");
}

// get_relative_date

#[test]
fn test_relative_date_minutes() {
    let date = now() - 5 * 60;
    assert_eq!(get_relative_date(date), "5m ago");
}

#[test]
fn test_relative_date_one_minute() {
    let date = now() - 30;
    assert_eq!(get_relative_date(date), "1m ago");
}

#[test]
fn test_relative_date_hours() {
    let date = now() - 3 * 3600;
    assert_eq!(get_relative_date(date), "3h ago");
}

#[test]
fn test_relative_date_one_day() {
    let date = now() - 86400;
    assert_eq!(get_relative_date(date), "1d ago");
}

#[test]
fn test_relative_date_days() {
    let date = now() - 5 * 86400;
    assert_eq!(get_relative_date(date), "5d ago");
}

#[test]
fn test_relative_date_weeks() {
    let date = now() - 14 * 86400;
    assert_eq!(get_relative_date(date), "2w ago");
}

#[test]
fn test_relative_date_months() {
    let date = now() - 60 * 86400;
    assert_eq!(get_relative_date(date), "2mo ago");
}

#[test]
fn test_relative_date_years() {
    let date = now() - 400 * 86400;
    assert_eq!(get_relative_date(date), "1y ago");
}

#[test]
fn test_relative_date_future() {
    let date = now() + 3600;
    assert_eq!(get_relative_date(date), "upcoming");
}

#[test]
fn relative_date_at_the_steps() {
    assert_eq!(relative_date_between(100, 100), "1m ago");
    assert_eq!(relative_date_between(0, 59 * 60 + 59), "59m ago");
    assert_eq!(relative_date_between(0, 60 * 60), "1h ago");
    assert_eq!(relative_date_between(0, 24 * 3600 - 1), "23h ago");
    assert_eq!(relative_date_between(0, 2 * 86400 - 1), "1d ago");
    assert_eq!(relative_date_between(0, 6 * 86400), "6d ago");
    assert_eq!(relative_date_between(0, 7 * 86400), "1w ago");
    assert_eq!(relative_date_between(0, 29 * 86400), "4w ago");
    assert_eq!(relative_date_between(0, 30 * 86400), "1mo ago");
    assert_eq!(relative_date_between(0, 364 * 86400), "12mo ago");
    assert_eq!(relative_date_between(0, 365 * 86400), "1y ago");
    assert_eq!(relative_date_between(1, 0), "upcoming");
    assert_eq!(relative_date_between(i64::MIN, i64::MAX), "584942417355y ago");
}
