use chrono::{NaiveDate, NaiveDateTime, NaiveTime, TimeZone, Utc};
use db_dump::error::Expected;
use db_dump::version::{Op, Version};
use db_dump::{boolean, checksum, date, datetime, features, integer, version, Date};

fn instant(text: &str) -> chrono::DateTime<Utc> {
    Utc.from_utc_datetime(&datetime::de(text).unwrap().naive_utc())
}

fn expected_instant(h: u32, m: u32, s: u32, micro: u32) -> chrono::DateTime<Utc> {
    Utc.from_utc_datetime(&NaiveDateTime::new(
        NaiveDate::from_ymd_opt(2020, 1, 1).unwrap(),
        NaiveTime::from_hms_micro_opt(h, m, s, micro).unwrap(),
    ))
}

#[test]
fn date_test_de() {
    let csv = "2020-01-01";
    assert_eq!(date::de(csv).unwrap(), Date::from_ymd(2020, 1, 1));
}

#[test]
fn datetime_test_de() {
    let csv = "2020-01-01 12:11:10.999999";
    assert_eq!(instant(csv), expected_instant(12, 11, 10, 999999));

    let csv = "2020-01-01 12:11:10.99";
    assert_eq!(instant(csv), expected_instant(12, 11, 10, 990000));

    let csv = "2020-01-01 12:11:10";
    assert_eq!(instant(csv), expected_instant(12, 11, 10, 0));
}

#[test]
fn date_fields_and_chrono_value() {
    let day = date::de("1999-12-31").unwrap();
    assert_eq!((day.year(), day.month(), day.day()), (1999, 12, 31));
    assert_eq!(day.naive_utc(), NaiveDate::from_ymd_opt(1999, 12, 31).unwrap());
}

#[test]
fn date_round_trips_through_text() {
    for text in ["2020-01-01", "0000-01-01", "9999-12-31", "2024-02-29", "1900-02-28", "0401-07-09"] {
        assert_eq!(date::de(text).unwrap().to_string(), text);
    }
}

#[test]
fn date_text_matches_chrono() {
    for (y, m, d) in [(2021, 3, 4), (0, 1, 1), (9999, 12, 31), (10000, 1, 1), (-1, 6, 15), (123456, 7, 8), (-262143, 1, 1), (262142, 12, 31)] {
        let day = Date::from_ymd_opt(y, m, d).unwrap();
        assert_eq!(day.to_string(), NaiveDate::from_ymd_opt(y, m, d).unwrap().to_string());
    }
}

#[test]
fn date_rejects_what_is_no_day() {
    for text in ["2020-13-01", "2020-02-30", "2021-02-29", "1900-02-29", "2020-00-10", "2020-01-00", "2020-04-31"] {
        let e = date::de(text).unwrap_err();
        assert_eq!(e.expected, Expected::Date);
        assert_eq!(e.detail, text);
    }
    assert!(date::de("2000-02-29").is_ok());
}

#[test]
fn date_rejects_other_shapes() {
    for text in ["", "2020-1-01", "2020-01-1", "20200101", "2020/01/01", "2020-01-01 ", " 2020-01-01", "2020-01-010", "+020-01-01", "2020-+1-01", "2020-01-+1", "202a-01-01", "２０２０-01", "2020-01-01T"] {
        assert!(date::de(text).is_err(), "{}", text);
    }
}

#[test]
fn date_from_ymd_opt_follows_the_calendar() {
    assert!(Date::from_ymd_opt(2015, 3, 14).is_some());
    assert!(Date::from_ymd_opt(2015, 0, 14).is_none());
    assert!(Date::from_ymd_opt(2015, 2, 29).is_none());
    assert!(Date::from_ymd_opt(-4, 2, 29).is_some());
    assert!(Date::from_ymd_opt(400000, 1, 1).is_none());
    assert!(Date::from_ymd_opt(-400000, 1, 1).is_none());
    assert!(Date::from_ymd_opt(262142, 12, 31).is_some());
    assert!(Date::from_ymd_opt(262143, 1, 1).is_none());
    assert!(Date::from_ymd_opt(-262143, 1, 1).is_some());
    assert!(Date::from_ymd_opt(-262144, 12, 31).is_none());
}

#[test]
fn dates_order_by_day() {
    assert!(Date::from_ymd(2020, 1, 31) < Date::from_ymd(2020, 2, 1));
    assert!(Date::from_ymd(2019, 12, 31) < Date::from_ymd(2020, 1, 1));
    assert_eq!(Date::from_ymd(2020, 5, 5), Date::from_ymd(2020, 5, 5));
}

#[test]
fn datetime_short_fraction_is_padded_on_the_right() {
    assert_eq!(datetime::de("2020-01-01 12:11:10.99").unwrap(), datetime::de("2020-01-01 12:11:10.990000").unwrap());
    assert_eq!(datetime::de("2020-01-01 12:11:10.99").unwrap().microsecond(), 990000);
    assert_eq!(datetime::de("2020-01-01 12:11:10.5").unwrap().microsecond(), 500000);
    assert_eq!(datetime::de("2020-01-01 12:11:10.000001").unwrap().microsecond(), 1);
    assert_eq!(datetime::de("2020-01-01 12:11:10.00001").unwrap().microsecond(), 10);
    assert_eq!(datetime::de("2020-01-01 12:11:10").unwrap().microsecond(), 0);
}

#[test]
fn datetime_fields() {
    let t = datetime::de("2017-01-20 14:15:16.123456").unwrap();
    assert_eq!(t.date(), Date::from_ymd(2017, 1, 20));
    assert_eq!((t.hour(), t.minute(), t.second(), t.microsecond()), (14, 15, 16, 123456));
}

#[test]
fn datetime_zone_marker_is_dropped() {
    assert_eq!(datetime::de("2020-01-01 12:11:10.99+00").unwrap(), datetime::de("2020-01-01 12:11:10.99").unwrap());
    assert_eq!(datetime::de("2020-01-01 12:11:10+00").unwrap(), datetime::de("2020-01-01 12:11:10").unwrap());
    assert!(datetime::de("2020-01-01 12:11:10+01").is_err());
    assert!(datetime::de("2020-01-01 12:11:10+00+00").is_err());
}

#[test]
fn datetime_rejects_malformed_text() {
    for text in ["", "2020-01-01", "2020-01-01 12:11", "2020-01-01T12:11:10", "2020-01-01 24:00:00", "2020-01-01 12:60:00", "2020-01-01 12:11:60", "2020-02-30 12:11:10", "2020-01-01 12:11:10.", "2020-01-01 12:11:10.1234567", "2020-01-01 12:11:10,5", "2020-01-01 12:11:10.12a", "2020-01-01 12:11:10.+5", "2020-01-01 +2:11:10", "2020-01-01 12-11-10", "2020-01-01 12:11:10 "] {
        let e = datetime::de(text).unwrap_err();
        assert_eq!(e.expected, Expected::DateTime, "{}", text);
        assert_eq!(e.detail, text);
    }
}

#[test]
fn boolean_is_one_letter() {
    assert_eq!(boolean::de("t").unwrap(), true);
    assert_eq!(boolean::de("f").unwrap(), false);
    for text in ["", "T", "F", "true", "false", "tt", "1", "0", " t", "t "] {
        let e = boolean::de(text).unwrap_err();
        assert_eq!(e.expected, Expected::Bool);
        assert_eq!(e.detail, text);
    }
}

#[test]
fn boolean_error_names_both_values() {
    let words = Expected::Bool.describe();
    assert!(words.contains("'t'"));
    assert!(words.contains("'f'"));
    let e = db_dump::Error::invalid(3, boolean::de("yes").unwrap_err());
    assert_eq!(e.message(), "invalid value, expected 't' or 'f': yes");
}

#[test]
fn set_lists_its_members_in_order() {
    assert_eq!(db_dump::set::de("{}").unwrap(), Vec::<String>::new());
    assert_eq!(db_dump::set::de("{a,b,c}").unwrap(), vec!["a", "b", "c"]);
    assert_eq!(db_dump::set::de("{a}").unwrap(), vec!["a"]);
    assert_eq!(db_dump::set::de("{,}").unwrap(), vec!["", ""]);
    assert_eq!(db_dump::set::de("{a,,b,}").unwrap(), vec!["a", "", "b", ""]);
    assert_eq!(db_dump::set::de("{{a},b}").unwrap(), vec!["{a}", "b"]);
    assert_eq!(db_dump::set::de("{número,日本語, x y}").unwrap(), vec!["número", "日本語", " x y"]);
}

#[test]
fn set_needs_both_braces() {
    for text in ["", "a,b,c", "{a,b", "a,b}", "{", "}", " {a}", "{a} "] {
        let e = db_dump::set::de(text).unwrap_err();
        assert_eq!(e.expected, Expected::List);
        assert_eq!(e.detail, text);
    }
}

#[test]
fn optional_set_takes_the_empty_cell() {
    assert_eq!(db_dump::set::optional("").unwrap(), Vec::<String>::new());
    assert_eq!(db_dump::set::optional("{}").unwrap(), Vec::<String>::new());
    assert_eq!(db_dump::set::optional("{a,b,c}").unwrap(), vec!["a", "b", "c"]);
    for text in ["a,b,c", "{a", "a}", " "] {
        assert!(db_dump::set::optional(text).is_err(), "{}", text);
    }
}

#[test]
fn integers_follow_the_cell_grammar() {
    assert_eq!(integer::unsigned("0", u64::MAX).unwrap(), 0);
    assert_eq!(integer::unsigned("007", u64::MAX).unwrap(), 7);
    assert_eq!(integer::unsigned("+42", u64::MAX).unwrap(), 42);
    assert_eq!(integer::unsigned("18446744073709551615", u64::MAX).unwrap(), u64::MAX);
    assert_eq!(integer::unsigned("0x1f", u64::MAX).unwrap(), 31);
    assert_eq!(integer::unsigned("0xFF", 255).unwrap(), 255);
    assert_eq!(integer::unsigned("0x+a", 255).unwrap(), 10);
    assert_eq!(integer::unsigned("4294967295", 0xffff_ffff).unwrap(), 4294967295);
    for text in ["", "+", "-", "-1", "1 ", " 1", "1_000", "18446744073709551616", "99999999999999999999999", "0x", "0xg", "1e3", "١"] {
        let e = integer::unsigned(text, u64::MAX).unwrap_err();
        assert_eq!(e.expected, Expected::Integer, "{}", text);
        assert_eq!(e.detail, text);
    }
    assert!(integer::unsigned("256", 255).is_err());
    assert!(integer::unsigned("0x100", 255).is_err());
    assert!(integer::unsigned("4294967296", 0xffff_ffff).is_err());
}

#[test]
fn integers_agree_with_std() {
    for text in ["0", "12", "+12", "-12", "00012", "2147483647", "2147483648", "-2147483648", "-2147483649", "", "+", "-", "--1", "+-1", "1-", "٣"] {
        assert_eq!(integer::signed32(text).ok(), text.parse::<i32>().ok(), "{}", text);
        assert_eq!(integer::unsigned(text, 0xffff_ffff_ffff_ffff).ok(), text.parse::<u64>().ok(), "{}", text);
        assert_eq!(integer::unsigned(text, 0xffff).ok().map(|v| v as u16), text.parse::<u16>().ok(), "{}", text);
    }
    assert_eq!(integer::signed32("0x-10").unwrap(), -16);
    assert_eq!(integer::signed32("0x7fffffff").unwrap(), i32::MAX);
    assert!(integer::signed32("0x80000000").is_err());
}

#[test]
fn checksum_is_sixty_four_hex_digits() {
    let text = "000102030405060708090a0b0c0d0e0f101112131415161718191A1B1C1D1E1Fff";
    assert!(checksum::de(text).is_err());
    let text = "000102030405060708090a0b0c0d0e0f101112131415161718191A1B1C1D1E1F";
    let digest = checksum::de(text).unwrap().unwrap();
    let expected: Vec<u8> = (0u8..32).collect();
    assert_eq!(digest.to_vec(), expected);
    assert_eq!(checksum::de("").unwrap(), None);
}

#[test]
fn checksum_round_trips() {
    let text = "6b86b273ff34fce19d6b804eff5a3f5747ada4eaa22f1d49c01e52ddb7875b4b";
    let digest = checksum::de(text).unwrap().unwrap();
    assert_eq!(digest[0], 0x6b);
    assert_eq!(digest[31], 0x4b);
    assert_eq!(checksum::to_hex(&digest), text);
    assert_eq!(checksum::de(&checksum::to_hex(&digest)).unwrap(), Some(digest));
    let upper = text.to_uppercase();
    assert_eq!(checksum::de(&upper).unwrap(), Some(digest));
}

#[test]
fn checksum_rejects_other_lengths_and_characters() {
    let good = "6b86b273ff34fce19d6b804eff5a3f5747ada4eaa22f1d49c01e52ddb7875b4b";
    let short = &good[..63];
    let long = format!("{}0", good);
    let bad = format!("{}g", &good[..63]);
    let signed = format!("+{}", &good[..63]);
    let wide = format!("{}é", &good[..62]);
    for text in [short, long.as_str(), bad.as_str(), signed.as_str(), wide.as_str(), "0"] {
        let e = checksum::de(text).unwrap_err();
        assert_eq!(e.expected, Expected::Checksum, "{}", text);
        assert_eq!(e.detail, text);
    }
}

fn release(major: u64, minor: u64, patch: u64, pre: &str, build: &str) -> Version {
    Version { major, minor, patch, pre: pre.to_owned(), build: build.to_owned() }
}

#[test]
fn version_is_read_by_semver() {
    assert_eq!(version::de("1.2.3").unwrap(), release(1, 2, 3, "", ""));
    assert_eq!(version::de("0.10.0-alpha.1+build.5").unwrap(), release(0, 10, 0, "alpha.1", "build.5"));
    let parsed = semver::Version::parse("3.4.5-rc.2+x").unwrap();
    let ours = version::de("3.4.5-rc.2+x").unwrap();
    assert_eq!((ours.major, ours.minor, ours.patch), (parsed.major, parsed.minor, parsed.patch));
    assert_eq!(ours.pre, parsed.pre.as_str());
    assert_eq!(ours.build, parsed.build.as_str());
}

#[test]
fn version_knows_the_historical_mistakes() {
    assert_eq!(version::de("0.0.1-001").unwrap(), version::de("0.0.1-1").unwrap());
    assert_eq!(version::de("0.3.0-alpha.01").unwrap(), version::de("0.3.0-alpha.1").unwrap());
    assert_eq!(version::de("0.4.0-alpha.00").unwrap(), version::de("0.4.0-alpha.0").unwrap());
    assert_eq!(version::de("0.4.0-alpha.01").unwrap(), version::de("0.4.0-alpha.1").unwrap());
    assert_eq!(version::de("0.0.1-001").unwrap(), release(0, 0, 1, "1", ""));
    assert!(semver::Version::parse("0.0.1-001").is_err());
}

#[test]
fn version_rejects_other_malformed_text() {
    for text in ["", "1", "1.2", "1.2.x", "01.2.3", "0.0.1-002", "1.2.3 "] {
        let e = version::de(text).unwrap_err();
        assert_eq!(e.expected, Expected::Version, "{}", text);
        assert!(e.detail.ends_with(&format!(": {}", text)), "{}", e.detail);
        assert_eq!(e.detail, format!("{}: {}", semver::Version::parse(text).unwrap_err(), text));
    }
}

#[test]
fn version_or_compat_goes_by_what_the_parser_gave() {
    let given = release(9, 9, 9, "", "");
    assert_eq!(version::version_or_compat("0.0.1-001", Ok(given.clone())).unwrap(), given);
    assert_eq!(version::version_or_compat("0.0.1-001", Err("no".to_owned())).unwrap(), release(0, 0, 1, "1", ""));
    let e = version::version_or_compat("what", Err("no".to_owned())).unwrap_err();
    assert_eq!(e.detail, "no: what");
}

fn ops(text: &str) -> Vec<(Op, u64, Option<u64>, Option<u64>, String)> {
    version::req(text).unwrap().comparators.into_iter().map(|c| (c.op, c.major, c.minor, c.patch, c.pre)).collect()
}

#[test]
fn requirement_is_read_by_semver() {
    assert_eq!(ops("^1.2.3"), vec![(Op::Caret, 1, Some(2), Some(3), String::new())]);
    assert_eq!(ops("1"), vec![(Op::Caret, 1, None, None, String::new())]);
    assert_eq!(ops(">=1.0, <2.0.0-beta"), vec![(Op::GreaterEq, 1, Some(0), None, String::new()), (Op::Less, 2, Some(0), Some(0), "beta".to_owned())]);
    assert_eq!(ops("=1.2.3"), vec![(Op::Exact, 1, Some(2), Some(3), String::new())]);
    assert_eq!(ops(">1"), vec![(Op::Greater, 1, None, None, String::new())]);
    assert_eq!(ops("<=1.5"), vec![(Op::LessEq, 1, Some(5), None, String::new())]);
    assert_eq!(ops("~1.2"), vec![(Op::Tilde, 1, Some(2), None, String::new())]);
    assert_eq!(ops("1.*"), vec![(Op::Wildcard, 1, None, None, String::new())]);
    assert_eq!(ops("*"), vec![]);
}

#[test]
fn requirement_knows_the_historical_mistakes() {
    assert_eq!(version::req("^0-.11.0").unwrap(), version::req("^0.11.0").unwrap());
    assert_eq!(version::req("^0.1-alpha.0").unwrap(), version::req("^0.1.0-alpha.0").unwrap());
    assert_eq!(version::req("^0.51-oldsyn").unwrap(), version::req("^0.51.1-oldsyn").unwrap());
    assert_eq!(version::req("~2.0-2.2").unwrap(), version::req(">=2.0, <=2.2").unwrap());
    let e = version::req("^0-.12.0").unwrap_err();
    assert_eq!(e.expected, Expected::VersionReq);
    assert_eq!(e.detail, format!("{}: req ^0-.12.0", semver::VersionReq::parse("^0-.12.0").unwrap_err()));
}

#[test]
fn rust_version_is_the_least_version_of_one_caret() {
    assert_eq!(version::rust_version("1.56").unwrap(), Some(release(1, 56, 0, "", "")));
    assert_eq!(version::rust_version("1.56.1").unwrap(), Some(release(1, 56, 1, "", "")));
    assert_eq!(version::rust_version("1").unwrap(), Some(release(1, 0, 0, "", "")));
    assert_eq!(version::rust_version("^1.60.0-nightly").unwrap(), Some(release(1, 60, 0, "nightly", "")));
    assert_eq!(version::rust_version("").unwrap(), None);
}

#[test]
fn rust_version_of_another_shape_is_none() {
    for text in [">=1.56", "1.56, <2", "1.*", "*", "~1.56", "=1.56.0", "<1.70"] {
        assert_eq!(version::rust_version(text).unwrap(), None, "{}", text);
    }
    let e = version::rust_version("stable").unwrap_err();
    assert_eq!(e.expected, Expected::RustVersion);
    assert_eq!(e.detail, semver::VersionReq::parse("stable").unwrap_err().to_string());
}

#[test]
fn minimum_version_goes_by_what_the_parser_gave() {
    let req = version::req("^2.1").unwrap();
    assert_eq!(version::minimum_version(Ok(req)).unwrap(), Some(release(2, 1, 0, "", "")));
    let req = version::req(">=2.1").unwrap();
    assert_eq!(version::minimum_version(Ok(req)).unwrap(), None);
    let e = version::minimum_version(Err("bad".to_owned())).unwrap_err();
    assert_eq!(e.detail, "bad");
}

#[test]
fn features_are_a_json_object_of_lists() {
    let map = features::de(r#"{"std":["alloc"],"default":["std","serde"],"alloc":[]}"#).unwrap();
    assert_eq!(map, vec![
        ("alloc".to_owned(), vec![]),
        ("default".to_owned(), vec!["std".to_owned(), "serde".to_owned()]),
        ("std".to_owned(), vec!["alloc".to_owned()]),
    ]);
    assert_eq!(features::de("{}").unwrap(), vec![]);
    assert_eq!(features::de(r#"{"a":["x"],"a":["y"]}"#).unwrap(), vec![("a".to_owned(), vec!["y".to_owned()])]);
}

#[test]
fn features_reject_other_json() {
    for text in ["", "[]", r#"{"a":1}"#, r#"{"a":["x"]"#, r#"{"a":"x"}"#, "{a,b}"] {
        let e = features::de(text).unwrap_err();
        assert_eq!(e.expected, Expected::Features, "{}", text);
        assert!(!e.detail.is_empty());
    }
    let e = features::features_from(Err("broken".to_owned())).unwrap_err();
    assert_eq!(e.detail, "broken");
    assert_eq!(features::features_from(Ok(vec![])).unwrap(), vec![]);
}
