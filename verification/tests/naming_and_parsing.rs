use mysql_backup::config::{build_config, parse_u64, parse_usize, ConfigError, EnvValue};
use mysql_backup::listing::{
    parse_date, parse_listing_line, parse_time, split_fields, split_listing_lines,
};
use mysql_backup::naming::name_for;
use mysql_backup::timestamp::Timestamp;

fn t(year: u32, month: u32, day: u32, hour: u32, minute: u32, second: u32) -> Timestamp {
    Timestamp { year, month, day, hour, minute, second }
}

#[test]
fn name_embeds_the_timestamp_zero_padded() {
    let name = name_for(t(2024, 1, 2, 3, 4, 5));
    assert_eq!(name, "mysql-2024-01-02:03:04:05.gz");
    let name = name_for(t(999, 12, 31, 23, 59, 59));
    assert_eq!(name, "mysql-0999-12-31:23:59:59.gz");
}

#[test]
fn names_sort_like_their_timestamps() {
    let pairs = [
        (t(2023, 12, 31, 23, 59, 59), t(2024, 1, 1, 0, 0, 0)),
        (t(2024, 1, 2, 3, 4, 5), t(2024, 1, 2, 3, 4, 6)),
        (t(2024, 1, 2, 3, 4, 5), t(2024, 1, 2, 3, 5, 0)),
        (t(2024, 1, 9, 0, 0, 0), t(2024, 1, 10, 0, 0, 0)),
        (t(2024, 9, 1, 0, 0, 0), t(2024, 10, 1, 0, 0, 0)),
    ];
    for (earlier, later) in pairs {
        assert!(name_for(earlier) < name_for(later));
    }
}

#[test]
fn date_parsing_accepts_valid_calendar_dates_only() {
    assert_eq!(parse_date("2024-01-02"), Some((2024, 1, 2)));
    assert_eq!(parse_date("2024-02-29"), Some((2024, 2, 29)));
    assert_eq!(parse_date("2023-02-29"), None);
    assert_eq!(parse_date("2000-02-29"), Some((2000, 2, 29)));
    assert_eq!(parse_date("1900-02-29"), None);
    assert_eq!(parse_date("2024-00-01"), None);
    assert_eq!(parse_date("2024-13-01"), None);
    assert_eq!(parse_date("2024-04-31"), None);
    assert_eq!(parse_date("2024-12-31"), Some((2024, 12, 31)));
    assert_eq!(parse_date("2024/01/02"), None);
    assert_eq!(parse_date("2024-1-2"), None);
    assert_eq!(parse_date(""), None);
}

#[test]
fn time_parsing_accepts_the_24_hour_clock_only() {
    assert_eq!(parse_time("03:04:05"), Some((3, 4, 5)));
    assert_eq!(parse_time("23:59:59"), Some((23, 59, 59)));
    assert_eq!(parse_time("24:00:00"), None);
    assert_eq!(parse_time("12:60:00"), None);
    assert_eq!(parse_time("12:00:60"), None);
    assert_eq!(parse_time("3:04:05"), None);
    assert_eq!(parse_time("03-04-05"), None);
}

#[test]
fn fields_split_on_runs_of_blanks() {
    let fields = split_fields("2024-01-02 03:04:05    1024  mysql-x.gz");
    assert_eq!(fields, vec!["2024-01-02", "03:04:05", "1024", "mysql-x.gz"]);
    let fields = split_fields("  a \t b  ");
    assert_eq!(fields, vec!["a", "b"]);
    let fields = split_fields("   ");
    assert!(fields.is_empty());
}

#[test]
fn listing_text_splits_into_lines() {
    assert_eq!(split_listing_lines("a\nb\n"), vec!["a", "b"]);
    assert_eq!(split_listing_lines("a\r\nb"), vec!["a", "b"]);
    assert_eq!(split_listing_lines("a\n\nb"), vec!["a", "", "b"]);
    assert!(split_listing_lines("").is_empty());
    assert_eq!(split_listing_lines("\n"), vec![""]);
    assert_eq!(split_listing_lines("last without newline"), vec!["last without newline"]);
}

#[test]
fn listing_line_yields_the_artifact_it_describes() {
    let a = parse_listing_line("2024-01-02 03:04:05    1024 mysql-2024-01-02:03:04:05.gz")
        .expect("line should parse");
    assert_eq!(a.name, "mysql-2024-01-02:03:04:05.gz");
    assert_eq!(a.created_at, t(2024, 1, 2, 3, 4, 5));
    assert!(parse_listing_line("2024-01-02 03:04:05 1024").is_none());
    assert!(parse_listing_line("").is_none());
    assert!(parse_listing_line("PRE some-directory/").is_none());
}

#[test]
fn decimal_parsing_is_exact() {
    assert_eq!(parse_u64("86400"), Some(86400));
    assert_eq!(parse_u64("0"), Some(0));
    assert_eq!(parse_u64(""), None);
    assert_eq!(parse_u64("12a"), None);
    assert_eq!(parse_u64("-5"), None);
    assert_eq!(parse_u64("18446744073709551615"), Some(u64::MAX));
    assert_eq!(parse_u64("18446744073709551616"), None);
    assert_eq!(parse_u64("+3600"), Some(3600));
    assert_eq!(parse_u64("+"), None);
    assert_eq!(parse_u64("++1"), None);
    assert_eq!(parse_usize("3"), Some(3));
    assert_eq!(parse_usize("+3"), Some(3));
    assert_eq!(parse_usize("x"), None);
}

fn all_good() -> (
    EnvValue,
    EnvValue,
    bool,
    EnvValue,
    bool,
    bool,
    bool,
    EnvValue,
    EnvValue,
    EnvValue,
) {
    (
        EnvValue::Present("3600".to_string()),
        EnvValue::Present("5".to_string()),
        true,
        EnvValue::Present("backup".to_string()),
        true,
        true,
        true,
        EnvValue::Present("s3://bucket".to_string()),
        EnvValue::Present("db.example".to_string()),
        EnvValue::Missing,
    )
}

#[test]
fn config_accepts_a_complete_environment() {
    let (a, b, c, d, e, f, g, h, i, j) = all_good();
    let cfg = build_config(a, b, c, d, e, f, g, h, i, j).expect("should validate");
    assert_eq!(cfg.sleep_secs, 3600);
    assert_eq!(cfg.backups_to_keep, 5);
    assert_eq!(cfg.mysql_user, "backup");
    assert_eq!(cfg.mysql_host, "db.example");
    assert_eq!(cfg.aws_url, "s3://bucket");
    assert!(cfg.slack_url.is_none());
}

#[test]
fn config_applies_the_defaults() {
    let (_, _, c, d, e, f, g, h, i, _) = all_good();
    let cfg = build_config(
        EnvValue::Missing,
        EnvValue::Missing,
        c,
        d,
        e,
        f,
        g,
        h,
        i,
        EnvValue::Present("https://chat.example/hook".to_string()),
    )
    .expect("should validate");
    assert_eq!(cfg.sleep_secs, 86400);
    assert_eq!(cfg.backups_to_keep, 3);
    assert_eq!(cfg.slack_url.as_deref(), Some("https://chat.example/hook"));
}

#[test]
fn config_rejects_each_fault_with_its_error() {
    let (a, b, _, d, e, f, g, h, i, j) = all_good();
    assert_eq!(
        build_config(a, b, false, d, e, f, g, h, i, j).unwrap_err(),
        ConfigError::MysqlPwdMissing
    );
    let (_, b, c, d, e, f, g, h, i, j) = all_good();
    assert_eq!(
        build_config(EnvValue::Present("soon".to_string()), b, c, d, e, f, g, h, i, j)
            .unwrap_err(),
        ConfigError::SleepDurationNotInteger
    );
    let (a, _, c, d, e, f, g, h, i, j) = all_good();
    assert_eq!(
        build_config(a, EnvValue::Present("-1".to_string()), c, d, e, f, g, h, i, j)
            .unwrap_err(),
        ConfigError::BackupsToKeepNotInteger
    );
    let (a, b, c, _, e, f, g, h, i, j) = all_good();
    assert_eq!(
        build_config(a, b, c, EnvValue::Missing, e, f, g, h, i, j).unwrap_err(),
        ConfigError::MysqlUserMissing
    );
    let (a, b, c, d, _, f, g, h, i, j) = all_good();
    assert_eq!(
        build_config(a, b, c, d, false, f, g, h, i, j).unwrap_err(),
        ConfigError::AwsAccessKeyIdMissing
    );
    let (a, b, c, d, e, _, g, h, i, j) = all_good();
    assert_eq!(
        build_config(a, b, c, d, e, false, g, h, i, j).unwrap_err(),
        ConfigError::AwsSecretAccessKeyMissing
    );
    let (a, b, c, d, e, f, _, h, i, j) = all_good();
    assert_eq!(
        build_config(a, b, c, d, e, f, false, h, i, j).unwrap_err(),
        ConfigError::AwsDefaultRegionMissing
    );
    let (a, b, c, d, e, f, g, _, i, j) = all_good();
    assert_eq!(
        build_config(a, b, c, d, e, f, g, EnvValue::Missing, i, j).unwrap_err(),
        ConfigError::AwsUrlMissing
    );
    let (a, b, c, d, e, f, g, h, _, j) = all_good();
    assert_eq!(
        build_config(a, b, c, d, e, f, g, h, EnvValue::Missing, j).unwrap_err(),
        ConfigError::MysqlHostMissing
    );
    let (a, b, c, d, e, f, g, h, i, _) = all_good();
    assert_eq!(
        build_config(a, b, c, d, e, f, g, h, i, EnvValue::NotUnicode).unwrap_err(),
        ConfigError::SlackUrlNotUnicode
    );
}
