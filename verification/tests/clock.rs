use city_tiles_pos::clock::{format_compact_stamp, format_date, format_month_start, timestamp, today_text, UtcStamp};
use city_tiles_pos::services::retention::{retention_cutoff, retention_cutoff_at, retention_snapshot_name, RETENTION_DAYS};

#[test]
fn calendar_fields_render_with_zero_padding() {
    let t = UtcStamp { year: 987, month: 3, day: 4, hour: 5, minute: 6, second: 7 };
    assert_eq!(format_date(t), "0987-03-04");
    assert_eq!(format_month_start(t), "0987-03-01");
    assert_eq!(format_compact_stamp(t), "09870304_050607");
    let far = UtcStamp { year: 12345, month: 12, day: 31, hour: 23, minute: 59, second: 60 };
    assert_eq!(format_date(far), "+12345-12-31");
    let bc = UtcStamp { year: -44, month: 3, day: 15, hour: 0, minute: 0, second: 0 };
    assert_eq!(format_date(bc), "-0044-03-15");
}

#[test]
fn the_clock_is_read_in_utc() {
    let before = chrono::Utc::now().format("%Y-%m-%d").to_string();
    let today = today_text();
    let after = chrono::Utc::now().format("%Y-%m-%d").to_string();
    assert!(today == before || today == after);
    let stamp = timestamp();
    assert_eq!(stamp.len(), 15);
    assert_eq!(stamp.as_bytes()[8], b'_');
    assert!(stamp.starts_with(&before[0..4]) || stamp.starts_with(&after[0..4]));
}

#[test]
fn the_retention_cutoff_is_a_year_back() {
    let cutoff = chrono::DateTime::parse_from_rfc3339(&retention_cutoff()).unwrap();
    let age = chrono::Utc::now().signed_duration_since(cutoff);
    assert!(age.num_days() >= RETENTION_DAYS && age.num_days() <= RETENTION_DAYS + 1);
    let name = retention_snapshot_name();
    assert!(name.starts_with("citytiles_backup_") && name.ends_with(".sqlite"));
}

#[test]
fn the_retention_cutoff_is_written_in_utc() {
    let cutoff = retention_cutoff();
    let b = cutoff.as_bytes();
    assert_eq!(b[4], b'-');
    assert_eq!(b[7], b'-');
    assert_eq!(b[10], b'T');
    assert_eq!(b[13], b':');
    assert_eq!(b[16], b':');
    assert!(cutoff.ends_with("+00:00"));
    let frac = cutoff.len() - 25;
    assert!(frac == 0 || frac == 4 || frac == 7 || frac == 10);
}

#[test]
fn the_cutoff_is_a_retention_period_before_the_given_instant() {
    let now = UtcStamp { year: 2026, month: 8, day: 23, hour: 10, minute: 5, second: 9 };
    assert_eq!(retention_cutoff_at(now, 0), "2025-08-23T10:05:09+00:00");
    assert_eq!(retention_cutoff_at(now, 120_000_000), "2025-08-23T10:05:09.120+00:00");
    let leap = UtcStamp { year: 2025, month: 3, day: 1, hour: 0, minute: 0, second: 0 };
    assert_eq!(retention_cutoff_at(leap, 1_500), "2024-03-01T00:00:00.000001500+00:00");
}
