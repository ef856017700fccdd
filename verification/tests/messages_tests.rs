use messauto::messages::{get_last_rowid, parse_latest_rowid, parse_sqlite_output, permission_error, MessageProcessor, RowidError};
use messauto::numbers::IntErrorKind;
use messauto::watch::{path_matches, WatchEvent};

#[test]
fn sqlite_rows_give_their_text_field() {
    let out = "12|Your code is 4321|+15550001|2024-01-01 10:00:00\n\n   \n11| hello |x|y\r\nnofield\n";
    assert_eq!(parse_sqlite_output(out), vec!["Your code is 4321".to_string(), "hello".to_string()]);
    assert_eq!(parse_sqlite_output(""), Vec::<String>::new());
    assert_eq!(parse_sqlite_output("5|"), vec!["".to_string()]);
}

#[test]
fn last_rowid_is_first_field_of_first_row() {
    assert_eq!(get_last_rowid("  \n15|a|b\n14|c\n"), Ok(15));
    assert_eq!(get_last_rowid("-3|x"), Ok(-3));
    assert_eq!(get_last_rowid("+7"), Ok(7));
    assert_eq!(get_last_rowid("-9223372036854775808|x"), Ok(i64::MIN));
    assert_eq!(get_last_rowid("9223372036854775807|x"), Ok(i64::MAX));
}

#[test]
fn last_rowid_errors() {
    assert_eq!(get_last_rowid(""), Err(RowidError::Missing));
    assert_eq!(get_last_rowid(" \n \t"), Err(RowidError::Missing));
    assert_eq!(get_last_rowid("abc|1"), Err(RowidError::Invalid(IntErrorKind::InvalidDigit)));
    assert_eq!(get_last_rowid(" 1|x"), Ok(1));
    assert_eq!(get_last_rowid("1 |x"), Err(RowidError::Invalid(IntErrorKind::InvalidDigit)));
    assert_eq!(get_last_rowid("9223372036854775808|x"), Err(RowidError::Invalid(IntErrorKind::PosOverflow)));
    assert_eq!(get_last_rowid("-|x"), Err(RowidError::Invalid(IntErrorKind::InvalidDigit)));
    assert_eq!(get_last_rowid("|x"), Err(RowidError::Invalid(IntErrorKind::Empty)));
}

#[test]
fn rowid_error_texts() {
    let missing = get_last_rowid("   \n").unwrap_err();
    assert_eq!(missing.message(), "No valid ROWID found");
    assert_eq!(get_last_rowid("x|1").unwrap_err().message(), "invalid digit found in string");
    assert_eq!(get_last_rowid("|1").unwrap_err().message(), "cannot parse integer from empty string");
    assert_eq!(get_last_rowid("99999999999999999999|1").unwrap_err().message(), "number too large to fit in target type");
    assert_eq!(get_last_rowid("-99999999999999999999|1").unwrap_err().message(), "number too small to fit in target type");
    assert_eq!(get_last_rowid("-99999999999999999999|1"), Err(RowidError::Invalid(IntErrorKind::NegOverflow)));
    assert_eq!("x".parse::<i64>().unwrap_err().to_string(), get_last_rowid("x").unwrap_err().message());
}

#[test]
fn latest_rowid_answer() {
    assert_eq!(parse_latest_rowid(true, "  42\n"), Ok(42));
    assert_eq!(parse_latest_rowid(true, "\n"), Ok(0));
    assert_eq!(parse_latest_rowid(false, "42"), Ok(0));
    assert_eq!(parse_latest_rowid(true, "x"), Err(RowidError::Invalid(IntErrorKind::InvalidDigit)));
}

#[test]
fn query_names_the_last_row() {
    let p = MessageProcessor::new(0, Some(-17));
    let q = p.query_sql();
    assert!(q.starts_with("SELECT m.ROWID, m.text, h.id as phone_number"));
    assert!(q.contains("WHERE m.ROWID > -17\n"));
    assert!(q.ends_with("LIMIT 10;"));
    assert_eq!(MessageProcessor::new(0, None).last_processed_rowid, 0);
    assert_eq!(MessageProcessor::new(55, None).last_processed_rowid, 55);
    assert_eq!(MessageProcessor::new(55, Some(60)).last_processed_rowid, 60);
}

#[test]
fn rowid_round_trips_through_query() {
    for n in [0i64, 7, 1234567, -1, i64::MAX, i64::MIN] {
        let q = MessageProcessor::new(0, Some(n)).query_sql();
        let start = q.find("WHERE m.ROWID > ").unwrap() + "WHERE m.ROWID > ".len();
        let rest = &q[start..];
        let end = rest.find('\n').unwrap();
        assert_eq!(get_last_rowid(&rest[..end]), Ok(n));
    }
}

#[test]
fn new_messages_move_the_last_row() {
    let mut p = MessageProcessor::new(0, Some(10));
    let got = p.take_new_messages("13|code 1|a|b\n12|code 2|a|b\n");
    assert_eq!(got, vec!["code 1".to_string(), "code 2".to_string()]);
    assert_eq!(p.last_processed_rowid, 13);
    let none = p.take_new_messages("");
    assert!(none.is_empty());
    assert_eq!(p.last_processed_rowid, 13);
    let odd = p.take_new_messages("x|text\n");
    assert_eq!(odd, vec!["text".to_string()]);
    assert_eq!(p.last_processed_rowid, 13);
}

#[test]
fn message_events_and_paths() {
    let p = MessageProcessor::new(0, None);
    assert!(p.accepts_event(WatchEvent::ModifyMetadataAny));
    assert!(!p.accepts_event(WatchEvent::CreateFile));
    assert!(!p.accepts_event(WatchEvent::Other));
    assert!(path_matches("/Users/a/Library/Messages/NickNameCache/nc.db-wal", p.get_file_pattern()));
    assert!(!path_matches("/Users/a/x.txt", p.get_file_pattern()));
    assert_eq!(p.watch_subpath(), "Library/Messages/NickNameCache");
    assert!(p.get_recursive_mode());
}

#[test]
fn permission_errors_are_recognised() {
    assert!(permission_error("Error: unable to open database \"chat.db\": authorization denied"));
    assert!(permission_error("Error: attempt to write a readonly database"));
    assert!(permission_error("open: permission denied"));
    assert!(!permission_error("Error: no such table: message"));
}

#[test]
fn sqlite_rows_of_joined_outputs() {
    let a = "3|one|x\n2|two|y\r";
    let b = "\n1| three\n";
    let mut expected = parse_sqlite_output(a);
    expected.extend(parse_sqlite_output(b));
    assert_eq!(parse_sqlite_output(&format!("{}\n{}", a, b)), expected);
}

#[test]
fn row_id_never_goes_down() {
    let mut p = MessageProcessor::new(0, Some(5));
    for (out, expect) in [("7|a\n6|b\n", 7), ("", 7), ("9|c\n", 9), ("x|d\n", 9)] {
        p.take_new_messages(out);
        assert_eq!(p.last_processed_rowid, expect);
        assert!(p.query_sql().contains(&format!("WHERE m.ROWID > {}\n", expect)));
    }
}

#[test]
fn each_row_is_read_by_one_call() {
    let mut p = MessageProcessor::new(0, Some(10));
    let answers = [("13|c|x|y\n12|b|x|y\n11|a|x|y\n", vec![13i64, 12, 11]), ("", vec![]), ("15|e|x|y\n14|d|x|y\n", vec![15, 14])];
    let mut seen: Vec<i64> = Vec::new();
    for (out, ids) in answers.iter() {
        let before = p.last_processed_rowid;
        assert!(ids.iter().all(|id| *id > before));
        let texts = p.take_new_messages(out);
        assert_eq!(texts.len(), ids.len());
        for id in ids {
            assert!(!seen.contains(id));
            seen.push(*id);
        }
        if let Some(first) = ids.first() {
            assert_eq!(p.last_processed_rowid, *first);
        } else {
            assert_eq!(p.last_processed_rowid, before);
        }
    }
    assert_eq!(p.last_processed_rowid, 15);
}
