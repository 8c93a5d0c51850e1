use std::cmp::Ordering;

use tenors::interpolation::{fill_order, plan_interpolation, plan_validation};
use tenors::{
    cme_tenor_parser_with_reference, current_reference_year, futures_code_month0,
    month_from_futures_code_with_reference, CalendarDate, Tenor, TenorDuration, TenorType,
    TenorsError,
};

fn at(s: &str, reference: isize) -> Tenor {
    Tenor::parse_with_reference(s, reference).unwrap_or_else(|e| panic!("{s}: {e:?}"))
}
fn date(y: i32, m: u32, d: u32) -> CalendarDate {
    CalendarDate::from_ymd_opt(y, m, d).unwrap()
}

#[test]
fn format_then_parse_round_trip_at_fixed_references() {
    for reference in [1950, 2024, 2150, -50] {
        for year in [0, 7, 99, 1000, 1969, 1970, 2024, 2099, 2100, 12345] {
            for ty in TenorType::iterator() {
                for part in 0..ty.per_year() {
                    let tenor = Tenor::from_parts(ty, year, part);
                    let text = tenor.format_with_reference(reference);
                    assert_eq!(at(&text, reference), tenor, "{tenor:?} -> {text}");
                }
            }
        }
    }
    // a negative year inside the reference century round-trips through two digits
    let m = Tenor::month_from_ym0(-50, 3);
    assert_eq!(m.format_with_reference(-20), "J50");
    assert_eq!(at("J50", -20), m);
    // outside it, it prints with a sign that no notation reads
    assert_eq!(m.format_with_reference(2024), "J-050");
    assert!(Tenor::parse_with_reference("J-050", 2024).is_err());
}

#[test]
fn format_with_reference_exact_strings() {
    assert_eq!(Tenor::month_from_ym0(1999, 0).format_with_reference(2024), "F1999");
    assert_eq!(Tenor::month_from_ym0(1999, 0).format_with_reference(1950), "F99");
    assert_eq!(Tenor::half_month_from_ymh0(2024, 11, 1).format_with_reference(2024), "2HZ24");
    assert_eq!(Tenor::quarter_from_yq0(2024, 3).format_with_reference(1999), "4Q2024");
    assert_eq!(Tenor::half_year_from_yh0(2024, 0).format_with_reference(2024), "1H24");
    assert_eq!(Tenor::year_from_y(7).format_with_reference(2024), "0007");
    assert_eq!(Tenor::year_from_y(-5).format_with_reference(2024), "-005");
}

#[test]
fn parse_edge_cases() {
    // a sign before the period number is read as isize parsing reads it
    assert_eq!(at("24Q+1", 2024), Tenor::quarter_from_yq0(2024, 0));
    assert_eq!(at("24Q01", 2024), Tenor::quarter_from_yq0(2024, 0));
    assert!(Tenor::parse_with_reference("24Q-1", 2024).is_err());
    // years beyond isize are not years
    assert_eq!(
        Tenor::parse_with_reference("99999999999999999999", 2024),
        Err(TenorsError::UnparsableTenorString("99999999999999999999".into()))
    );
    // a year whose offset would overflow is reported, not a panic
    assert_eq!(
        "F999999999999999999".parse::<Tenor>(),
        Err(TenorsError::ArithmeticOverflow)
    );
    // the first Q decides, even when an H follows
    assert!(Tenor::parse_with_reference("1Q2H", 2024).is_err());
    assert_eq!(at("2024Q3", 2024), Tenor::quarter_from_yq0(2024, 2));
    assert_eq!(at("1H24", 2024), Tenor::half_year_from_yh0(2024, 0));
}

#[test]
fn the_same_year_rule_for_every_parser() {
    for (code, cme) in [("F32", "JAN 32"), ("N05", "JUL 05"), ("N05", "JLY 05"), ("Z99", "dec 99")] {
        let a = cme_tenor_parser_with_reference(cme, 2024).unwrap();
        assert_eq!(a, at(code, 2024), "{cme}");
    }
    for s in ["F24", "F7", "F2024", "Z0"] {
        assert_eq!(
            month_from_futures_code_with_reference(s, 1983),
            Tenor::parse_with_reference(s, 1983)
        );
    }
    assert_eq!(at("F7", 1983), Tenor::month_from_ym0(1987, 0));
    assert!(cme_tenor_parser_with_reference("JLY 5x", 2024).is_err());
    assert!(cme_tenor_parser_with_reference("jly 05", 2024).is_err());
    assert_eq!(futures_code_month0('Z'), Some(11));
    assert_eq!(futures_code_month0('C'), None);
}

#[test]
fn the_clock_year_is_a_chrono_year() {
    let y = current_reference_year();
    assert!((-262143..=262142).contains(&y));
    assert!(y >= 2024);
}

#[test]
fn calendar_dates_come_from_chrono() {
    assert_eq!(CalendarDate::from_ymd_opt(2023, 2, 29), None);
    assert_eq!(CalendarDate::from_ymd_opt(2024, 13, 1), None);
    assert_eq!(CalendarDate::from_ymd_opt(300_000, 1, 1), None);
    let d = date(2024, 2, 29);
    assert_eq!((d.year(), d.month(), d.month0(), d.day()), (2024, 2, 1, 29));
    assert_eq!(date(2024, 3, 1).pred_opt(), Some(date(2024, 2, 29)));
    assert_eq!(date(2024, 1, 1).pred_opt(), Some(date(2023, 12, 31)));
    assert_eq!(date(1900, 3, 1).pred_opt(), Some(date(1900, 2, 28)));
    assert_eq!(date(2000, 3, 1).pred_opt(), Some(date(2000, 2, 29)));
    assert_eq!(date(-262143, 1, 1).pred_opt(), None);
}

#[test]
fn half_month_days_split_on_the_fifteenth() {
    for (y, m, last) in [(2023, 2, 28), (2024, 2, 29), (2024, 9, 30), (2024, 12, 31)] {
        let h1 = Tenor::half_month_from_ymh0(y as isize, m as isize - 1, 0);
        let h2 = Tenor::half_month_from_ymh0(y as isize, m as isize - 1, 1);
        assert_eq!(h1.first_day(), Some(date(y, m, 1)));
        assert_eq!(h1.last_day(), Some(date(y, m, 15)));
        assert_eq!(h2.first_day(), Some(date(y, m, 16)));
        assert_eq!(h2.last_day(), Some(date(y, m, last)));
        for d in 1..=last {
            let hm = Tenor::half_month_from_date(&date(y, m, d));
            let (f, l) = (hm.first_day().unwrap(), hm.last_day().unwrap());
            assert!(f.day() <= d && d <= l.day());
        }
    }
    // the second half of December of chrono's last year has no last day
    assert_eq!(Tenor::half_month_from_ymh0(262142, 11, 1).last_day(), None);
    assert_eq!(Tenor::half_month_from_ymh0(262142, 11, 0).last_day(), Some(date(262142, 12, 15)));
}

#[test]
fn cover_and_partition_laws_on_values() {
    let dec69 = Tenor::month_from_ym0(1969, 11);
    let year = dec69.cover(TenorType::Year).unwrap();
    assert!(year.partition(TenorType::Month).unwrap().contains(&dec69));
    let q = Tenor::quarter_from_yq0(2024, 2);
    let months = q.partition(TenorType::Month).unwrap();
    assert_eq!(months, [Tenor::month_from_ym0(2024, 6), Tenor::month_from_ym0(2024, 7), Tenor::month_from_ym0(2024, 8)]);
    for m in months {
        assert_eq!(m.cover(TenorType::Quarter), Some(q));
    }
    assert_eq!(Tenor::new(TenorType::Year, isize::MAX).partition(TenorType::Month), None);
    assert_eq!(Tenor::new(TenorType::Month, isize::MAX).cover(TenorType::Year), None);
}

#[test]
fn shifting_and_unshifting() {
    let m = Tenor::month_from_ym0(2024, 5);
    let d = TenorDuration::of(TenorType::HalfYear, 3);
    let there = (m + d).unwrap();
    assert_eq!(there, Tenor::month_from_ym0(2025, 11));
    assert_eq!((there - d).unwrap(), m);
    assert_eq!((&m + d).unwrap(), there);
    assert_eq!((&there - d).unwrap(), m);
    assert_eq!(m.checked_add(7).unwrap().checked_sub(7), Some(m));
    assert_eq!(
        (Tenor::year_from_y(2024) - TenorDuration::new(TenorType::HalfMonth)),
        Err(TenorsError::IncompatibleTenors {
            tenor: TenorType::Year,
            duration: TenorType::HalfMonth
        })
    );
    assert_eq!(
        Tenor::new(TenorType::HalfMonth, 0) + TenorDuration::of(TenorType::Month, isize::MAX),
        Err(TenorsError::ArithmeticOverflow)
    );
    let d = TenorDuration::of(TenorType::Quarter, 5) * 3 - 5;
    assert_eq!((d.tenor_type(), d.count()), (TenorType::Quarter, 10));
    assert_eq!(Tenor::new(TenorType::Month, isize::MIN).saturating_sub(1), Tenor::new(TenorType::Month, isize::MIN));
    assert_eq!(Tenor::new(TenorType::Month, -5).saturating_add(isize::MIN), Tenor::new(TenorType::Month, isize::MIN));
}

#[test]
fn constructors_carry_and_accessors_read_back() {
    assert_eq!(Tenor::half_month_from_ymh0(2024, 25, -3), Tenor::half_month_from_ymh0(2025, 11, 1));
    let t = Tenor::quarter_from_yq0(-7, 2);
    assert_eq!((t.year(), t.quarter0(), t.half_year0(), t.month0()), (-7, Some(2), Some(1), None));
    assert_eq!(Tenor::year_from_y(1970).epoch_offset(), 0);
    assert_eq!(Tenor::half_month_from_ymh0(1970, 0, 1).half0(), Some(1));
    assert_eq!(Tenor::half_month_from_ymh0(1970, 0, 1).get_tenor_type(), TenorType::HalfMonth);
}

#[test]
fn granularity_order_is_total_on_values() {
    let a = Tenor::month_from_ym0(2024, 0);
    let b = Tenor::quarter_from_yq0(1990, 0);
    assert_eq!(a.cmp_by_granularity(&b), Ordering::Less);
    assert_eq!(b.cmp_by_granularity(&a), Ordering::Greater);
    assert_eq!(a.cmp_by_granularity(&a), Ordering::Equal);
    assert_eq!(a.partial_cmp(&b), None);
    assert!(Tenor::month_from_ym0(2023, 11) < a);
}

fn tenors(list: &[&str]) -> Vec<Tenor> {
    list.iter().map(|s| at(s, 2024)).collect()
}

#[test]
fn fill_plan_single_missing_month() {
    let curve = tenors(&["F25", "G25", "1Q25"]);
    let steps = plan_interpolation(&curve, TenorType::Month);
    assert_eq!(steps.len(), 1);
    assert_eq!(steps[0].cover, 2);
    assert_eq!(steps[0].partition_len, 3);
    assert_eq!(steps[0].present, [0, 1]);
    assert_eq!(steps[0].missing, [at("H25", 2024)]);
}

#[test]
fn fill_plan_is_finest_first_and_order_independent() {
    let points = ["F25", "G25", "H25", "2Q25", "2H25", "Cal25"];
    let mut added_by_order = Vec::new();
    for order in [[0, 1, 2, 3, 4, 5], [5, 4, 3, 2, 1, 0], [3, 5, 0, 4, 2, 1]] {
        let curve: Vec<Tenor> = order.iter().map(|&i| at(points[i], 2024)).collect();
        let covers: Vec<Tenor> = fill_order(&curve, TenorType::Month).iter().map(|&i| curve[i]).collect();
        assert_eq!(covers, tenors(&["2Q25", "2H25", "Cal25"]));
        let steps = plan_interpolation(&curve, TenorType::Month);
        let added: Vec<Vec<Tenor>> = steps.iter().map(|s| s.missing.clone()).collect();
        added_by_order.push(added);
    }
    assert_eq!(added_by_order[0], added_by_order[1]);
    assert_eq!(added_by_order[0], added_by_order[2]);
    assert_eq!(
        added_by_order[0],
        [tenors(&["J25", "K25", "M25"]), tenors(&["N25", "Q25", "U25", "V25", "X25", "Z25"])]
    );
}

#[test]
fn fill_plan_later_covers_see_earlier_fills() {
    let curve = tenors(&["Cal25", "1Q25", "2Q25", "3Q25", "4Q25"]);
    let steps = plan_interpolation(&curve, TenorType::Month);
    assert_eq!(steps.len(), 4);
    assert!(steps.iter().all(|s| s.present.is_empty() && s.missing.len() == 3));
    let validation = plan_validation(&curve, TenorType::Month);
    assert!(validation.is_empty());
}

#[test]
fn validation_plan_lists_complete_covers() {
    let curve = tenors(&["F25", "G25", "H25", "1Q25", "2Q25", "F25"]);
    let checks = plan_validation(&curve, TenorType::Month);
    assert_eq!(checks.len(), 1);
    assert_eq!(checks[0].cover, 3);
    // the last point of a repeated tenor is the one that counts
    assert_eq!(checks[0].parts, [5, 1, 2]);
    assert!(plan_interpolation(&tenors(&["F25", "1Q25"]), TenorType::Quarter).is_empty());
}

#[test]
fn covers_compose_and_agree_with_accessors() {
    for t in [
        Tenor::half_month_from_ymh0(1969, 11, 1),
        Tenor::month_from_ym0(2024, 7),
        Tenor::quarter_from_yq0(-3, 2),
    ] {
        assert_eq!(t.cover(t.tenor_type()), Some(t));
        assert_eq!(t.cover(TenorType::Year), Some(Tenor::year_from_y(t.year())));
        for a in TenorType::iterator().filter(|a| *a >= t.tenor_type()) {
            for b in TenorType::iterator().filter(|b| *b >= a) {
                assert_eq!(t.cover(a).unwrap().cover(b), t.cover(b), "{t:?} {a:?} {b:?}");
            }
        }
    }
}

#[test]
fn consecutive_tenors_tile_the_calendar() {
    for t in [
        Tenor::half_month_from_ymh0(2024, 1, 0),
        Tenor::half_month_from_ymh0(2024, 1, 1),
        Tenor::half_month_from_ymh0(2023, 11, 1),
        Tenor::month_from_ym0(2024, 1),
        Tenor::quarter_from_yq0(1969, 3),
        Tenor::half_year_from_yh0(2024, 0),
        Tenor::year_from_y(1999),
    ] {
        let first_next = (t + 1).first_day().unwrap();
        assert_eq!(first_next.pred_opt(), t.last_day(), "{t:?}");
    }
}

#[test]
fn parse_overflow_is_an_error() {
    assert_eq!(
        Tenor::parse_with_reference("F999999999999999999", 2024),
        Err(TenorsError::ArithmeticOverflow)
    );
    assert_eq!(
        Tenor::month_from_futures_code("F999999999999999999"),
        Err(TenorsError::ArithmeticOverflow)
    );
}

#[test]
fn compound_assignment_shifts_in_place() {
    let mut t = Tenor::quarter_from_yq0(2024, 3);
    t += 1;
    assert_eq!(t, Tenor::quarter_from_yq0(2025, 0));
    t -= 5;
    assert_eq!(t, Tenor::quarter_from_yq0(2023, 3));
}
