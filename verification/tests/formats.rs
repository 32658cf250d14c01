use tlogg::csv::push_field;
use tlogg::csv::read_records;
use tlogg::digits::parse_number;
use tlogg::digits::push_decimal;
use tlogg::digits::push_padded;
use tlogg::parse_csv;
use tlogg::report::ReportRow;
use tlogg::text::chars_of;
use tlogg::text::string_of;
use tlogg::to_csv;
use tlogg::to_markdown;
use tlogg::Date;
use tlogg::Hours;
use tlogg::TloggEntry;

fn on(year: u16, month: u8, day: u8) -> Date {
    Date::new(year, month, day).expect("no such day")
}

fn logged(id: u64, millis: i64, message: &str, project: &str, created: Date) -> TloggEntry {
    TloggEntry {
        id,
        duration: Hours::from_millis(millis),
        message: message.to_string(),
        project: project.to_string(),
        created,
    }
}

fn row(project: &str, description: &str, millis: i64, created: Date) -> ReportRow {
    ReportRow {
        project: project.to_string(),
        description: description.to_string(),
        duration: Hours::from_millis(millis),
        created,
    }
}

fn quoted(field: &str) -> String {
    let mut out: Vec<char> = Vec::new();
    push_field(&mut out, &chars_of(field));
    string_of(&out)
}

fn records(text: &str) -> Option<Vec<Vec<String>>> {
    read_records(&chars_of(text))
        .map(|rs| rs.iter().map(|r| r.iter().map(|f| string_of(f)).collect()).collect())
}

#[test]
fn characters_go_to_a_string_and_back() {
    assert_eq!(chars_of("añ→b"), vec!['a', 'ñ', '→', 'b']);
    assert_eq!(string_of(&vec!['a', 'ñ', '→', 'b']), "añ→b");
    assert_eq!(chars_of(""), Vec::new());
    assert_eq!(string_of(&Vec::new()), "");
}

#[test]
fn numbers_are_written_in_decimal() {
    let mut out = vec!['#'];
    push_decimal(&mut out, 0);
    out.push(' ');
    push_decimal(&mut out, 7);
    out.push(' ');
    push_decimal(&mut out, 1203);
    out.push(' ');
    push_decimal(&mut out, u64::MAX);
    assert_eq!(string_of(&out), "#0 7 1203 18446744073709551615");
}

#[test]
fn numbers_are_padded_with_zeros() {
    let mut out = Vec::new();
    push_padded(&mut out, 7, 3);
    out.push(' ');
    push_padded(&mut out, 1970, 4);
    out.push(' ');
    push_padded(&mut out, 12345, 2);
    out.push(' ');
    push_padded(&mut out, 5, 0);
    assert_eq!(string_of(&out), "007 1970 45 ");
}

#[test]
fn numbers_are_read_from_digits() {
    let text = chars_of("ab0042cd18446744073709551615");
    assert_eq!(parse_number(&text, 2, 6), Some(42));
    assert_eq!(parse_number(&text, 2, 2), None);
    assert_eq!(parse_number(&text, 1, 6), None);
    assert_eq!(parse_number(&text, 8, 28), Some(u64::MAX));
    let over = chars_of("18446744073709551616");
    assert_eq!(parse_number(&over, 0, 20), None);
    let zeros = chars_of("000000000000000000000000000001");
    assert_eq!(parse_number(&zeros, 0, 30), Some(1));
}

#[test]
fn durations_are_read_from_decimal_hours() {
    assert_eq!(Hours::parse("2.5"), Some(Hours::from_millis(2500)));
    assert_eq!(Hours::parse("2"), Some(Hours::from_millis(2000)));
    assert_eq!(Hours::parse("0.125"), Some(Hours::from_millis(125)));
    assert_eq!(Hours::parse("0.25"), Some(Hours::from_millis(250)));
    assert_eq!(Hours::parse("10.000"), Some(Hours::from_millis(10000)));
    assert_eq!(Hours::parse("-1.5"), Some(Hours::from_millis(-1500)));
    assert_eq!(Hours::parse("0"), Some(Hours::from_millis(0)));
    assert_eq!(Hours::parse("-0.0"), Some(Hours::from_millis(0)));
    assert_eq!(Hours::parse("007.5"), Some(Hours::from_millis(7500)));
}

#[test]
fn what_is_no_decimal_number_is_no_duration() {
    for text in ["", "-", ".", ".5", "1.", "1.2345", "1,5", "1.5h", "+1", " 1", "1 ", "1.-5", "--1", "1..5", "abc", "1e3"] {
        assert_eq!(Hours::parse(text), None, "{:?}", text);
    }
}

#[test]
fn durations_end_where_the_integers_end() {
    assert_eq!(Hours::parse("9223372036854775.807"), Some(Hours::from_millis(i64::MAX)));
    assert_eq!(Hours::parse("9223372036854775.808"), None);
    assert_eq!(Hours::parse("-9223372036854775.808"), Some(Hours::from_millis(i64::MIN)));
    assert_eq!(Hours::parse("-9223372036854775.809"), None);
    assert_eq!(Hours::parse("18446744073709551616"), None);
    assert_eq!(Hours::parse("99999999999999999999999999"), None);
}

#[test]
fn durations_are_written_with_three_decimals() {
    assert_eq!(Hours::from_millis(2500).render(), "2.500");
    assert_eq!(Hours::from_millis(5).render(), "0.005");
    assert_eq!(Hours::from_millis(0).render(), "0.000");
    assert_eq!(Hours::from_millis(-1500).render(), "-1.500");
    assert_eq!(Hours::from_millis(123456789).render(), "123456.789");
    assert_eq!(Hours::from_millis(i64::MAX).render(), "9223372036854775.807");
    assert_eq!(Hours::from_millis(i64::MIN).render(), "-9223372036854775.808");
}

#[test]
fn written_durations_are_read_back() {
    for millis in [0, 1, -1, 999, 1000, 1001, 2500, -2500, 86_400_000, i64::MAX, i64::MIN] {
        let h = Hours::from_millis(millis);
        assert_eq!(Hours::parse(&h.render()), Some(h));
    }
}

#[test]
fn only_more_than_nothing_is_positive() {
    assert!(Hours::from_millis(1).is_positive());
    assert!(!Hours::from_millis(0).is_positive());
    assert!(!Hours::from_millis(-1).is_positive());
}

#[test]
fn dates_are_days_that_exist() {
    assert_eq!(Date::new(1970, 1, 1), Some(Date { year: 1970, month: 1, day: 1 }));
    assert_eq!(Date::new(2024, 2, 29), Some(Date { year: 2024, month: 2, day: 29 }));
    assert_eq!(Date::new(2000, 2, 29), Some(Date { year: 2000, month: 2, day: 29 }));
    assert_eq!(Date::new(1900, 2, 29), None);
    assert_eq!(Date::new(2023, 2, 29), None);
    assert_eq!(Date::new(2023, 4, 31), None);
    assert_eq!(Date::new(2023, 12, 31), Some(Date { year: 2023, month: 12, day: 31 }));
    assert_eq!(Date::new(2023, 0, 1), None);
    assert_eq!(Date::new(2023, 13, 1), None);
    assert_eq!(Date::new(2023, 1, 0), None);
    assert_eq!(Date::new(2023, 1, 32), None);
    assert_eq!(Date::new(10000, 1, 1), None);
    assert_eq!(Date::new(0, 1, 1), Some(Date { year: 0, month: 1, day: 1 }));
    assert!(Date { year: 2024, month: 2, day: 29 }.is_wf());
    assert!(!Date { year: 2023, month: 2, day: 29 }.is_wf());
    assert_eq!(Date::epoch(), Date { year: 1970, month: 1, day: 1 });
}

#[test]
fn dates_are_read_and_written() {
    assert_eq!(Date::parse("1970-01-01"), Some(Date::epoch()));
    assert_eq!(Date::parse("2024-02-29"), Some(on(2024, 2, 29)));
    assert_eq!(on(2024, 2, 29).render(), "2024-02-29");
    assert_eq!(on(33, 1, 9).render(), "0033-01-09");
    assert_eq!(Date::parse("0033-01-09"), Some(on(33, 1, 9)));
    for text in ["", "1970-1-1", "1970-01-1", "1970/01/01", "1970-13-01", "2023-02-29", "1970-01-01 ", "19700101", "197x-01-01", "1970-01-0x", "-970-01-01"] {
        assert_eq!(Date::parse(text), None, "{:?}", text);
    }
}

#[test]
fn dates_are_compared_by_year_month_and_day() {
    assert!(on(2020, 2, 1).is_on_or_after(on(2020, 2, 1)));
    assert!(on(2020, 2, 2).is_on_or_after(on(2020, 2, 1)));
    assert!(!on(2020, 1, 31).is_on_or_after(on(2020, 2, 1)));
    assert!(on(2021, 1, 1).is_on_or_after(on(2020, 12, 31)));
    assert!(!on(2019, 12, 31).is_on_or_after(on(2020, 1, 1)));
    assert!(on(2020, 3, 1).is_on_or_after(on(2020, 2, 29)));
}

#[test]
fn fields_are_quoted_where_they_must_be() {
    assert_eq!(quoted("plain text"), "plain text");
    assert_eq!(quoted(""), "");
    assert_eq!(quoted("a,b"), "\"a,b\"");
    assert_eq!(quoted("say \"hi\""), "\"say \"\"hi\"\"\"");
    assert_eq!(quoted("two\nlines"), "\"two\nlines\"");
    assert_eq!(quoted("cr\rhere"), "\"cr\rhere\"");
    assert_eq!(quoted("\""), "\"\"\"\"");
}

#[test]
fn a_text_is_taken_apart_into_records() {
    assert_eq!(records(""), Some(Vec::new()));
    assert_eq!(
        records("a,b\n\"c,d\",\"e\"\"f\"\n,\n"),
        Some(vec![
            vec!["a".to_string(), "b".to_string()],
            vec!["c,d".to_string(), "e\"f".to_string()],
            vec!["".to_string(), "".to_string()],
        ])
    );
    assert_eq!(records("\n"), Some(vec![vec!["".to_string()]]));
    assert_eq!(records("\"a\nb\"\n"), Some(vec![vec!["a\nb".to_string()]]));
    assert_eq!(records("a,b"), None);
    assert_eq!(records("\"a\n"), None);
    assert_eq!(records("\"a\"b\n"), None);
    assert_eq!(records("a\nb"), None);
}

#[test]
fn entries_are_written_as_comma_separated_values() {
    let entries = vec![
        logged(1, 2500, "bugfix", "work", on(2024, 5, 17)),
        logged(2, 250, "say \"hi\", then go", "home, sweet home", on(2024, 5, 18)),
        logged(5, 1000, "two\nlines", "work", on(2024, 5, 19)),
    ];
    assert_eq!(
        to_csv(&entries),
        "project,description,hours,date\n\
         work,bugfix,2.500,2024-05-17\n\
         \"home, sweet home\",\"say \"\"hi\"\", then go\",0.250,2024-05-18\n\
         work,\"two\nlines\",1.000,2024-05-19\n"
    );
    assert_eq!(to_csv(&Vec::new()), "project,description,hours,date\n");
}

#[test]
fn written_values_are_read_back_in_order() {
    let entries = vec![
        logged(1, 2500, "bugfix", "work", on(2024, 5, 17)),
        logged(2, 250, "say \"hi\", then go", "home, sweet home", on(2024, 5, 18)),
        logged(5, 1000, "two\nlines\r\n", "work", on(2024, 5, 19)),
        logged(6, 1, "", "\"", on(2024, 5, 19)),
        logged(7, 1, "project,description,hours,date", "ünïcödé", on(2024, 5, 20)),
    ];
    let rows = parse_csv(&to_csv(&entries)).expect("a report");
    assert_eq!(
        rows,
        vec![
            row("work", "bugfix", 2500, on(2024, 5, 17)),
            row("home, sweet home", "say \"hi\", then go", 250, on(2024, 5, 18)),
            row("work", "two\nlines\r\n", 1000, on(2024, 5, 19)),
            row("\"", "", 1, on(2024, 5, 19)),
            row("ünïcödé", "project,description,hours,date", 1, on(2024, 5, 20)),
        ]
    );
    let tuples: Vec<(f64, String, String)> = rows
        .iter()
        .map(|r| (r.duration.millis as f64 / 1000.0, r.description.clone(), r.project.clone()))
        .collect();
    assert_eq!(tuples[0], (2.5, "bugfix".to_string(), "work".to_string()));
    assert_eq!(parse_csv("project,description,hours,date\n"), Some(Vec::new()));
}

#[test]
fn what_is_no_report_is_not_read() {
    assert_eq!(parse_csv(""), None);
    assert_eq!(parse_csv("work,bugfix,2.500,2024-05-17\n"), None);
    assert_eq!(parse_csv("project,description,hours\n"), None);
    assert_eq!(parse_csv("project,description,hours,date"), None);
    let head = "project,description,hours,date\n";
    assert_eq!(parse_csv(&format!("{}work,bugfix,2.500\n", head)), None);
    assert_eq!(parse_csv(&format!("{}work,bugfix,2.500,2024-05-17,x\n", head)), None);
    assert_eq!(parse_csv(&format!("{}work,bugfix,soon,2024-05-17\n", head)), None);
    assert_eq!(parse_csv(&format!("{}work,bugfix,2.500,2024-02-30\n", head)), None);
    assert_eq!(parse_csv(&format!("{}work,\"bugfix,2.500,2024-05-17\n", head)), None);
    assert_eq!(
        parse_csv(&format!("{}work,bugfix,2.5,2024-05-17\n", head)),
        Some(vec![row("work", "bugfix", 2500, on(2024, 5, 17))])
    );
}

#[test]
fn entries_are_written_as_a_markdown_table() {
    let entries = vec![
        logged(1, 2500, "bugfix", "work", on(2024, 5, 17)),
        logged(2, 250, "a|b\nc", "home", on(2024, 5, 18)),
    ];
    assert_eq!(
        to_markdown(&entries),
        "| project | description | hours | date |\n\
         |---|---|---|---|\n\
         | work | bugfix | 2.500 | 2024-05-17 |\n\
         | home | a\\|b c | 0.250 | 2024-05-18 |\n"
    );
    assert_eq!(
        to_markdown(&Vec::new()),
        "| project | description | hours | date |\n|---|---|---|---|\n"
    );
}
