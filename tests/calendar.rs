use horocal::cal::{is_leap, month_length, month_title};
use horocal::{Horo, Sign, Year};

const MARCH_15_2024: u64 = 1710460800;

const NAMES: [&str; 12] = [
    "aries",
    "taurus",
    "gemini",
    "cancer",
    "leo",
    "virgo",
    "libra",
    "scorpio",
    "sagittarius",
    "capricorn",
    "aquarius",
    "pisces",
];

#[test]
fn gregorian_leap_rule() {
    assert!(is_leap(2000));
    assert!(!is_leap(1900));
    assert!(is_leap(2024));
    assert!(!is_leap(2023));
    assert!(is_leap(2400));
    assert!(!is_leap(2100));
    assert!(is_leap(0));
}

#[test]
fn month_lengths() {
    let common: Vec<u16> = (0..12).map(|m| month_length(m, false)).collect();
    assert_eq!(common, vec![31, 28, 31, 30, 31, 30, 31, 31, 30, 31, 30, 31]);
    assert_eq!(month_length(1, true), 29);
    assert_eq!(month_length(12, false), 366);
}

#[test]
fn months_sum_to_year_length() {
    for year in [1900u16, 1999, 2000, 2023, 2024, 2100] {
        let total: u32 = (0..12).map(|m| month_length(m, is_leap(year)) as u32).sum();
        assert_eq!(total, if is_leap(year) { 366 } else { 365 });
    }
}

#[test]
fn month_titles() {
    assert_eq!(month_title(0), "January");
    assert_eq!(month_title(2), "March");
    assert_eq!(month_title(11), "December");
}

#[test]
fn every_sign_name_is_accepted() {
    for (i, name) in NAMES.iter().enumerate() {
        let s = Sign::from_string(name.to_string()).unwrap();
        assert_eq!(s.index() as usize, i);
        assert_eq!(s.name(), *name);
        assert_eq!(Sign::at(i as u8), s);
    }
}

#[test]
fn unknown_sign_lists_all_names() {
    let err = Sign::from_string("atlantis".to_string()).unwrap_err();
    assert!(err.starts_with("Could not match \"atlantis\"\nPossible values:\n"));
    for name in NAMES {
        assert!(err.contains(&format!("\n    {}", name)));
    }
    assert!(err.ends_with("    pisces"));
    assert!(Sign::from_string("Leo".to_string()).is_err());
    assert!(Sign::from_string(String::new()).is_err());
}

#[test]
fn sign_glyphs() {
    assert_eq!(Sign::Aries.glyph(), "\u{2648}");
    assert_eq!(Sign::Leo.glyph(), "\u{264c}");
    assert_eq!(Sign::Pisces.glyph(), "\u{2653}");
}

#[test]
fn year_from_timestamp() {
    let y = Year::new(MARCH_15_2024, Sign::Aries);
    assert_eq!(y.ad(), 2024);
    assert_eq!(y.today(), 73);
    assert_eq!(y.weekday(), 1);
    assert_eq!(y.moods().len(), 366);
    assert_eq!(y.current_month(), 2);
    assert_eq!(y.day_offset(), 60);
    assert_eq!(y.sign(), Sign::Aries);
}

#[test]
fn epoch_is_january_1970() {
    let y = Year::new(0, Sign::Aries);
    assert_eq!(y.ad(), 1970);
    assert_eq!(y.today(), 0);
    assert_eq!(y.moods().len(), 365);
    assert_eq!(y.current_month(), 0);
    assert_eq!(y.day_offset(), 0);
}

#[test]
fn last_hours_of_a_mean_year_stay_in_december() {
    let ts = 53 * 31556952 + 365 * 86400 + 100;
    let y = Year::new(ts, Sign::Aries);
    assert_eq!(y.ad(), 2023);
    assert_eq!(y.today(), 364);
    assert_eq!(y.current_month(), 11);
    assert_eq!(y.day_offset(), 334);
    assert!(y.render().contains("December 2023"));
}

#[test]
fn offset_and_month_locate_today() {
    for step in 0..400u64 {
        let y = Year::new(step * 86400 * 3, Sign::Gemini);
        let m = y.current_month();
        let off = y.day_offset();
        let within = y.today() - off;
        assert!(within < month_length(m, is_leap(y.ad())));
        assert_eq!(off + within, y.today());
    }
}

#[test]
fn year_moods_come_from_year_plus_sign() {
    let y = Year::new(MARCH_15_2024, Sign::Leo);
    let mut h = Horo::new(2024 + 4);
    assert_eq!(y.moods(), &h.draw(366));
}

#[test]
fn sign_changes_the_moods() {
    let leo = Year::new(MARCH_15_2024, Sign::Leo);
    let aries = Year::new(MARCH_15_2024, Sign::Aries);
    let virgo = Year::new(MARCH_15_2024, Sign::Virgo);
    assert_ne!(leo.moods(), aries.moods());
    assert_ne!(leo.moods(), virgo.moods());
    assert!(leo.render().contains("\u{264c}"));
}

#[test]
fn render_march_2024() {
    let y = Year::new(MARCH_15_2024, Sign::Leo);
    let text = y.render();
    let lines: Vec<&str> = text.split('\n').collect();
    assert_eq!(lines[0], "    \u{264c}March 2024     ");
    assert_eq!(lines[1], "Su Mo Tu We Th Fr Sa");
    assert!(lines[2].starts_with("               "));
    let cells: usize = (0..10)
        .map(|digit| text.matches(&format!("{}\u{1b}[0m ", digit)).count())
        .sum();
    assert_eq!(cells, 31);
    assert_eq!(text.matches("\u{1b}[7m").count(), 1);
    assert!(text.contains("\u{1b}[7m14\u{1b}[0m "));
    assert!(!text.contains(" 32\u{1b}"));
    assert_eq!(lines.len(), 8);
}

#[test]
fn render_matches_cell_layout() {
    let y = Year::new(MARCH_15_2024, Sign::Leo);
    let moods = y.moods();
    let mut expected = String::from("    \u{264c}March 2024     \nSu Mo Tu We Th Fr Sa\n");
    expected.push_str(&"   ".repeat(5));
    for d in 0..31u16 {
        let idx = 60 + d as usize;
        expected.push_str(moods[idx].escape());
        if idx == 73 {
            expected.push_str("\u{1b}[7m");
        }
        expected.push_str(&format!("{:>2}\u{1b}[0m ", d + 1));
        if (5 + d + 1) % 7 == 0 {
            expected.push('\n');
        }
    }
    assert_eq!(y.render(), expected);
}
