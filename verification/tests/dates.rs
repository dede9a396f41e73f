use blog::date::PostDate;
use blog::templates::render_date_br;

fn fmt(y: i32, m: u32, d: u32) -> String {
    render_date_br(&PostDate::from_ymd_opt(y, m, d).unwrap())
}

#[test]
fn formats_canonical_example_from_claude_md() {
    assert_eq!(fmt(2026, 3, 20), "20 de março de 2026");
}

#[test]
fn formats_january_with_pt_br_name() {
    assert_eq!(fmt(2026, 1, 1), "1 de janeiro de 2026");
}

#[test]
fn formats_december_boundary() {
    assert_eq!(fmt(2026, 12, 31), "31 de dezembro de 2026");
}

#[test]
fn does_not_zero_pad_day() {
    assert_eq!(fmt(2026, 5, 1), "1 de maio de 2026");
    assert_eq!(fmt(2026, 5, 9), "9 de maio de 2026");
}

#[test]
fn includes_full_month_names_with_accents() {
    assert_eq!(fmt(2026, 2, 15), "15 de fevereiro de 2026");
    assert_eq!(fmt(2026, 3, 15), "15 de março de 2026");
    assert_eq!(fmt(2026, 4, 15), "15 de abril de 2026");
    assert_eq!(fmt(2026, 6, 15), "15 de junho de 2026");
    assert_eq!(fmt(2026, 9, 15), "15 de setembro de 2026");
    assert_eq!(fmt(2026, 11, 15), "15 de novembro de 2026");
}

#[test]
fn formats_remaining_months_and_negative_years() {
    assert_eq!(fmt(2026, 7, 4), "4 de julho de 2026");
    assert_eq!(fmt(2026, 8, 10), "10 de agosto de 2026");
    assert_eq!(fmt(2026, 10, 31), "31 de outubro de 2026");
    assert_eq!(fmt(-4, 2, 29), "29 de fevereiro de -4");
    assert_eq!(fmt(0, 1, 1), "1 de janeiro de 0");
}

#[test]
fn only_existing_days_are_dates() {
    assert!(PostDate::from_ymd_opt(2015, 3, 14).is_some());
    assert!(PostDate::from_ymd_opt(2015, 0, 14).is_none());
    assert!(PostDate::from_ymd_opt(2015, 2, 29).is_none());
    assert!(PostDate::from_ymd_opt(2016, 2, 29).is_some());
    assert!(PostDate::from_ymd_opt(1900, 2, 29).is_none());
    assert!(PostDate::from_ymd_opt(2000, 2, 29).is_some());
    assert!(PostDate::from_ymd_opt(2023, 4, 31).is_none());
    assert!(PostDate::from_ymd_opt(2023, 13, 1).is_none());
    assert!(PostDate::from_ymd_opt(262142, 12, 31).is_some());
    assert!(PostDate::from_ymd_opt(262143, 1, 1).is_none());
    assert!(PostDate::from_ymd_opt(-262143, 1, 1).is_some());
    assert!(PostDate::from_ymd_opt(-262144, 12, 31).is_none());
}

#[test]
fn dates_compare_in_calendar_order() {
    let a = PostDate::from_ymd_opt(2025, 12, 31).unwrap();
    let b = PostDate::from_ymd_opt(2026, 1, 1).unwrap();
    let c = PostDate::from_ymd_opt(2026, 1, 2).unwrap();
    assert!(a.is_before(&b));
    assert!(b.is_before(&c));
    assert!(!c.is_before(&a));
    assert!(!b.is_before(&b));
    assert_eq!((c.year(), c.month(), c.day()), (2026, 1, 2));
}
