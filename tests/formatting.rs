use journal::{entry_line, entry_text, format_date, get_clock_emoji, journal_path, success_message, Moment};

fn moment(year: i32, month: u32, day: u32, hour: u32, minute: u32) -> Moment {
    Moment { year, month, day, hour, minute }
}

fn strings(parts: &[&str]) -> Vec<String> {
    parts.iter().map(|p| p.to_string()).collect()
}

#[test]
fn icon_for_each_hour_follows_the_dial() {
    for hour in 0u32..24 {
        assert_eq!(get_clock_emoji(hour), get_clock_emoji(hour % 12));
    }
    assert_eq!(get_clock_emoji(0), get_clock_emoji(12));
    assert_eq!(get_clock_emoji(0), "\u{1F55B}");
    assert_eq!(get_clock_emoji(14), "\u{1F551}");
    assert_eq!(get_clock_emoji(23), "\u{1F55A}");
}

#[test]
fn twelve_distinct_icons() {
    let icons: Vec<&str> = (0u32..12).map(get_clock_emoji).collect();
    for i in 0..12 {
        for j in 0..12 {
            if i != j {
                assert_ne!(icons[i], icons[j]);
            }
        }
    }
}

#[test]
fn format_year_month_day() {
    let m = moment(2024, 5, 3, 14, 7);
    assert_eq!(format_date("YYYY-MM-DD", &m), "2024-05-03");
    assert_eq!(format_date("DD/MM/YY", &m), "03/05/24");
    assert_eq!(format_date("YY.MM.DD", &m), "24.05.03");
}

#[test]
fn format_without_tokens_is_unchanged() {
    let m = moment(2024, 5, 3, 14, 7);
    assert_eq!(format_date("notes", &m), "notes");
    assert_eq!(format_date("", &m), "");
    assert_eq!(format_date("a-b/c Y M D", &m), "a-b/c Y M D");
}

#[test]
fn full_year_is_not_substituted_twice() {
    let m = moment(2024, 5, 3, 14, 7);
    assert_eq!(format_date("YYYYY", &m), "2024Y");
    assert_eq!(format_date("YYYYYY", &m), "202424");
    assert_eq!(format_date("YYYY-YY", &m), "2024-24");
    assert_eq!(format_date("YYYYMMDD", &m), "20240503");
}

#[test]
fn years_outside_four_digits() {
    assert_eq!(format_date("YYYY", &moment(7, 1, 1, 0, 0)), "0007");
    assert_eq!(format_date("YYYY", &moment(12345, 1, 1, 0, 0)), "+12345");
    assert_eq!(format_date("YYYY", &moment(-1, 1, 1, 0, 0)), "-0001");
    assert_eq!(format_date("YY", &moment(-1, 1, 1, 0, 0)), "99");
    assert_eq!(format_date("YY", &moment(-200, 1, 1, 0, 0)), "00");
    assert_eq!(format_date("YY", &moment(2005, 1, 1, 0, 0)), "05");
}

#[test]
fn entry_text_joins_arguments() {
    assert_eq!(entry_text(&strings(&[])), None);
    assert_eq!(entry_text(&strings(&["went", "running"])), Some("went running".to_string()));
    assert_eq!(entry_text(&strings(&["a  b", "c"])), Some("a  b c".to_string()));
    assert_eq!(entry_text(&strings(&["solo"])), Some("solo".to_string()));
}

#[test]
fn entry_line_layout() {
    assert_eq!(entry_line(14, 7, "went running"), "JOURNAL CLI 14:07 \u{1F551} -> went running\n");
    assert_eq!(entry_line(0, 5, "x"), "JOURNAL CLI 00:05 \u{1F55B} -> x\n");
    assert_eq!(entry_line(12, 59, ""), "JOURNAL CLI 12:59 \u{1F55B} -> \n");
}

#[test]
fn journal_path_joins_home_and_stem() {
    assert_eq!(journal_path("/tmp/j", "2024-05-03"), "/tmp/j/2024-05-03.md");
    assert_eq!(journal_path("/tmp/j/", "2024-05-03"), "/tmp/j/2024-05-03.md");
    assert_eq!(journal_path("", "notes"), "notes.md");
    assert_eq!(journal_path("/tmp/j", "/abs"), "/abs.md");
    assert_eq!(journal_path("rel", "2024/05"), "rel/2024/05.md");
}

#[test]
fn success_line() {
    assert_eq!(success_message("/tmp/j/2024-05-03.md"), "\u{2713} Entry added to /tmp/j/2024-05-03.md");
}

#[test]
fn formatting_a_stem_again_changes_nothing() {
    let m = moment(2024, 5, 3, 14, 7);
    let other = moment(1999, 12, 31, 23, 59);
    for pattern in ["YYYY-MM-DD", "YYYYY", "MMM-DDD-YYY", "DD/MM/YY", "notes"] {
        let stem = format_date(pattern, &m);
        assert_eq!(format_date(&stem, &other), stem);
    }
    assert_eq!(format_date("MMM-DDD-YYY", &m), "05M-03D-24Y");
}
