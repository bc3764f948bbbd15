use chrono::{Local, TimeZone};
use wx_cli::ipc::Request;
use wx_cli::requests::{history_request, search_request, time_span};
use wx_cli::time::{
    end_time_from, fmt_hhmm, fmt_time, parse_time, parse_time_end, time_from, time_text_from,
    TimeError, LONG_TIME, SHORT_TIME,
};

#[test]
fn times_are_shown_by_the_local_clock() {
    for ts in [0i64, 1_700_000_000, -1, -86_400 * 400, 253_402_300_800] {
        let dt = Local.timestamp_opt(ts, 0).single().unwrap();
        assert_eq!(fmt_time(ts, LONG_TIME), dt.format("%Y-%m-%d %H:%M").to_string());
        assert_eq!(fmt_time(ts, SHORT_TIME), dt.format("%m-%d %H:%M").to_string());
        assert_eq!(fmt_hhmm(ts), dt.format("%H:%M").to_string());
    }
}

#[test]
fn times_outside_of_the_calendar_are_numbers() {
    let first: i64 = -8_334_601_228_800;
    let last: i64 = 8_210_266_876_799;
    for ts in [first - 1, last + 1, i64::MIN, i64::MAX] {
        assert_eq!(fmt_time(ts, LONG_TIME), ts.to_string());
        assert!(Local.timestamp_opt(ts, 0).single().is_none());
    }
    for ts in [first, last] {
        assert_ne!(fmt_hhmm(ts), ts.to_string());
        assert!(Local.timestamp_opt(ts, 0).single().is_some());
    }
    assert_eq!(time_text_from(5, None), "5");
    assert_eq!(time_text_from(5, Some("x".to_string())), "x");
}

#[test]
fn times_are_read_in_three_formats() {
    assert_eq!(parse_time("1970-01-02").unwrap(), 86_400);
    assert_eq!(parse_time("1970-01-01 01:02").unwrap(), 3_720);
    assert_eq!(parse_time("1970-01-01 01:02:03").unwrap(), 3_723);
    assert_eq!(parse_time("2024-02-29").unwrap(), 1_709_164_800);
    for bad in ["", "2023-02-29", "2024/01/01", "2024-01-01 25:00", "now", "2024-01-01x"] {
        match parse_time(bad) {
            Err(e) => {
                assert_eq!(e.text, bad);
                assert_eq!(
                    e.message(),
                    format!(
                        "无法解析时间 '{}'，支持 YYYY-MM-DD / YYYY-MM-DD HH:MM / YYYY-MM-DD HH:MM:SS",
                        bad
                    )
                );
            }
            Ok(t) => panic!("{} gave {}", bad, t),
        }
        assert!(parse_time_end(bad).is_err());
    }
}

#[test]
fn a_date_ends_with_its_last_second() {
    assert_eq!(parse_time_end("1970-01-02").unwrap(), 86_400 + 86_399);
    assert_eq!(parse_time_end("1970-01-01 01:02").unwrap(), 3_720);
    assert_eq!(parse_time_end("1970-01-01 01:02:03").unwrap(), 3_723);
    assert_eq!(parse_time_end("1970-01-01").unwrap(), 86_399);
    assert_eq!(parse_time_end("1970-1-2").unwrap(), 86_400 + 86_399);
    assert_eq!(parse_time("1970-1-2").unwrap(), 86_400);
}

#[test]
fn readings_count_in_their_order() {
    assert_eq!(time_from("s", Some(1), Some(2), Some(3)).unwrap(), 1);
    assert_eq!(time_from("s", None, Some(2), Some(3)).unwrap(), 2);
    assert_eq!(time_from("s", None, None, Some(3)).unwrap(), 3);
    assert_eq!(time_from("s", None, None, None).unwrap_err().text, "s");
    assert_eq!(end_time_from(Some(7), Ok(5)).unwrap(), 7);
    assert_eq!(end_time_from(None, Ok(5)).unwrap(), 5);
    let e: Result<i64, TimeError> = Err(TimeError { text: "x".to_string() });
    assert_eq!(end_time_from(None, e).unwrap_err().text, "x");
}

fn text(s: &str) -> Option<String> {
    Some(s.to_string())
}

#[test]
fn spans_end_with_the_last_second() {
    let span = time_span(&text("1970-01-01"), &text("1970-01-01")).unwrap();
    assert_eq!(span, (Some(0), Some(86_399)));
    assert_eq!(time_span(&None, &None).unwrap(), (None, None));
    assert_eq!(time_span(&text("a"), &text("b")).unwrap_err().text, "a");
    assert_eq!(time_span(&None, &text("b")).unwrap_err().text, "b");
}

#[test]
fn requests_hold_what_was_asked() {
    match history_request("c".to_string(), 5, 6, &text("1970-01-01"), &None).unwrap() {
        Request::History { chat, limit, offset, since, until, msg_type } => {
            assert_eq!((chat.as_str(), limit, offset), ("c", 5, 6));
            assert_eq!((since, until, msg_type), (Some(0), None, None));
        }
        _ => panic!(),
    }
    assert!(history_request("c".to_string(), 5, 6, &text("?"), &None).is_err());
    match search_request("k".to_string(), vec![], 5, &None, &text("1970-01-01")).unwrap() {
        Request::Search { keyword, chats, limit, since, until, .. } => {
            assert_eq!((keyword.as_str(), limit), ("k", 5));
            assert!(chats.is_none());
            assert_eq!((since, until), (None, Some(86_399)));
        }
        _ => panic!(),
    }
    match search_request("k".to_string(), vec!["a".to_string()], 5, &None, &None).unwrap() {
        Request::Search { chats, .. } => assert_eq!(chats, Some(vec!["a".to_string()])),
        _ => panic!(),
    }
}
