use tenors::{
    cme_tenor_parser, current_reference_year, CalendarDate, Tenor, TenorDuration, TenorType,
    TenorsError,
};

fn century() -> isize {
    current_reference_year().div_euclid(100) * 100
}
fn decade() -> isize {
    current_reference_year().div_euclid(10) * 10
}
fn t(s: &str) -> Tenor {
    s.parse().unwrap_or_else(|e| panic!("{s}: {e:?}"))
}
fn date(y: i32, m: u32, d: u32) -> CalendarDate {
    CalendarDate::from_ymd_opt(y, m, d).unwrap()
}

// --- model ---------------------------------------------------------------

#[test]
fn tenor_type_order_and_granularity() {
    assert!(TenorType::HalfMonth < TenorType::Month && TenorType::HalfYear < TenorType::Year);
    assert_eq!(
        TenorType::iterator()
            .map(|t| t.granularity())
            .collect::<Vec<_>>(),
        [1, 2, 6, 12, 24]
    );
}

#[test]
fn constructors_carry_out_of_range_parts() {
    assert_eq!(
        Tenor::month_from_ym0(2024, 12),
        Tenor::month_from_ym0(2025, 0)
    );
    assert_eq!(
        Tenor::month_from_ym0(2024, -1),
        Tenor::month_from_ym0(2023, 11)
    );
    assert_eq!(
        Tenor::quarter_from_yq0(2024, 4),
        Tenor::quarter_from_yq0(2025, 0)
    );
    assert_eq!(
        Tenor::quarter_from_yq0(1969, -1),
        Tenor::quarter_from_yq0(1968, 3)
    );
    assert_eq!(
        Tenor::half_year_from_yh0(2024, 2),
        Tenor::half_year_from_yh0(2025, 0)
    );
    assert_eq!(
        Tenor::half_month_from_ymh0(2024, 11, 2),
        Tenor::half_month_from_ymh0(2025, 0, 0)
    );
}

#[test]
fn try_constructors_reject_out_of_range_parts() {
    assert_eq!(
        Tenor::try_month_from_ym0(2024, 11),
        Some(Tenor::month_from_ym0(2024, 11))
    );
    assert_eq!(Tenor::try_month_from_ym0(2024, 12), None);
    assert_eq!(Tenor::try_month_from_ym0(2024, -1), None);
    assert_eq!(Tenor::try_quarter_from_yq0(2024, 4), None);
    assert_eq!(
        Tenor::try_half_year_from_yh0(2024, 1),
        Some(Tenor::half_year_from_yh0(2024, 1))
    );
    assert_eq!(Tenor::try_half_year_from_yh0(2024, 2), None);
}

#[test]
fn accessors_before_and_after_the_epoch() {
    for (tenor, year, m0, q0, h0) in [
        (
            Tenor::month_from_ym0(2024, 0),
            2024,
            Some(0),
            Some(0),
            Some(0),
        ),
        (
            Tenor::month_from_ym0(2024, 11),
            2024,
            Some(11),
            Some(3),
            Some(1),
        ),
        (
            Tenor::month_from_ym0(1969, 11),
            1969,
            Some(11),
            Some(3),
            Some(1),
        ),
        (
            Tenor::month_from_ym0(1969, 0),
            1969,
            Some(0),
            Some(0),
            Some(0),
        ),
        (
            Tenor::quarter_from_yq0(1968, 3),
            1968,
            None,
            Some(3),
            Some(1),
        ),
        (
            Tenor::half_year_from_yh0(1969, 0),
            1969,
            None,
            None,
            Some(0),
        ),
        (Tenor::year_from_y(1800), 1800, None, None, None),
        (
            Tenor::half_month_from_ymh0(1969, 5, 1),
            1969,
            Some(5),
            Some(1),
            Some(0),
        ),
    ] {
        assert_eq!(tenor.year(), year, "{tenor:?}");
        assert_eq!(tenor.month0(), m0, "{tenor:?}");
        assert_eq!(tenor.quarter0(), q0, "{tenor:?}");
        assert_eq!(tenor.half_year0(), h0, "{tenor:?}");
    }
    assert_eq!(Tenor::half_month_from_ymh0(2024, 0, 1).half0(), Some(1));
    assert_eq!(Tenor::month_from_ym0(2024, 0).half0(), None);
}

#[test]
fn cover_floors_before_the_epoch() {
    let dec69 = Tenor::month_from_ym0(1969, 11);
    assert_eq!(dec69.cover(TenorType::Year), Some(Tenor::year_from_y(1969)));
    assert_eq!(
        dec69.cover(TenorType::Quarter),
        Some(Tenor::quarter_from_yq0(1969, 3))
    );
    assert_eq!(
        dec69.cover(TenorType::HalfYear),
        Some(Tenor::half_year_from_yh0(1969, 1))
    );
    assert_eq!(
        Tenor::month_from_ym0(1970, 0).cover(TenorType::Year),
        Some(Tenor::year_from_y(1970))
    );
    assert_eq!(
        Tenor::half_month_from_ymh0(1969, 0, 0).cover(TenorType::Year),
        Some(Tenor::year_from_y(1969))
    );
    assert_eq!(Tenor::year_from_y(2024).cover(TenorType::Month), None);
    assert_eq!(
        Tenor::month_from_ym0(2024, 4).cover(TenorType::Month),
        Some(Tenor::month_from_ym0(2024, 4))
    );
}

#[test]
fn partition_and_cover_are_inverse() {
    for year in [1800, 1969, 1970, 2024, 2100] {
        let y = Tenor::year_from_y(year);
        for ty in TenorType::iterator() {
            let parts = y.partition(ty).unwrap();
            assert_eq!(parts.len(), ty.per_year() as usize);
            for p in parts {
                assert_eq!(p.cover(TenorType::Year), Some(y), "{p:?}");
            }
        }
    }
    assert_eq!(
        Tenor::month_from_ym0(2024, 0).partition(TenorType::Year),
        None
    );
}

#[test]
fn first_and_last_day() {
    let jan24 = Tenor::month_from_ym0(2024, 0);
    assert_eq!(jan24.first_day(), Some(date(2024, 1, 1)));
    assert_eq!(jan24.last_day(), Some(date(2024, 1, 31)));
    assert_eq!(
        Tenor::month_from_ym0(2024, 1).last_day(),
        Some(date(2024, 2, 29))
    );
    assert_eq!(
        Tenor::month_from_ym0(2023, 1).last_day(),
        Some(date(2023, 2, 28))
    );
    assert_eq!(
        Tenor::month_from_ym0(2024, 11).last_day(),
        Some(date(2024, 12, 31))
    );
    assert_eq!(
        Tenor::quarter_from_yq0(2024, 1).first_day(),
        Some(date(2024, 4, 1))
    );
    assert_eq!(
        Tenor::quarter_from_yq0(2024, 1).last_day(),
        Some(date(2024, 6, 30))
    );
    assert_eq!(
        Tenor::half_year_from_yh0(2024, 1).last_day(),
        Some(date(2024, 12, 31))
    );
    assert_eq!(Tenor::year_from_y(1969).first_day(), Some(date(1969, 1, 1)));
    assert_eq!(
        Tenor::year_from_y(1969).last_day(),
        Some(date(1969, 12, 31))
    );
    // half-months: 1st–15th, 16th–end
    assert_eq!(
        Tenor::half_month_from_ymh0(2024, 1, 0).first_day(),
        Some(date(2024, 2, 1))
    );
    assert_eq!(
        Tenor::half_month_from_ymh0(2024, 1, 0).last_day(),
        Some(date(2024, 2, 15))
    );
    assert_eq!(
        Tenor::half_month_from_ymh0(2024, 1, 1).first_day(),
        Some(date(2024, 2, 16))
    );
    assert_eq!(
        Tenor::half_month_from_ymh0(2024, 1, 1).last_day(),
        Some(date(2024, 2, 29))
    );
    assert_eq!(
        Tenor::half_month_from_ymh0(2024, 11, 1).last_day(),
        Some(date(2024, 12, 31))
    );
    // outside chrono's range: None, no panic
    assert_eq!(Tenor::year_from_y(300_000).first_day(), None);
    assert_eq!(Tenor::new(TenorType::Month, isize::MAX).last_day(), None);
}

#[test]
fn the_fifteenth_belongs_to_the_first_half() {
    for (y, m, last) in [(2024, 2, 29), (2023, 2, 28), (2024, 4, 30), (2024, 3, 31)] {
        let h1 = Tenor::half_month_from_ymh0(y as isize, m as isize - 1, 0);
        let h2 = Tenor::half_month_from_ymh0(y as isize, m as isize - 1, 1);
        assert_eq!(Tenor::from(&date(y, m, 14)), h1);
        assert_eq!(Tenor::from(&date(y, m, 15)), h1);
        assert_eq!(Tenor::from(&date(y, m, 16)), h2);
        assert_eq!(Tenor::from(&date(y, m, last)), h2);
        assert_eq!(h1.last_day(), Some(date(y, m, 15)));
        assert_eq!(h2.first_day(), Some(date(y, m, 16)));
        assert_eq!(h2.last_day(), Some(date(y, m, last)));
    }
    assert_eq!(
        Tenor::from(&date(1970, 1, 4)),
        Tenor::new(TenorType::HalfMonth, 0)
    );
    assert_eq!(
        Tenor::from(&date(1970, 1, 15)),
        Tenor::new(TenorType::HalfMonth, 0)
    );
    assert_eq!(
        Tenor::from(&date(1970, 1, 16)),
        Tenor::new(TenorType::HalfMonth, 1)
    );
    assert_eq!(
        Tenor::half_month_from_date(&date(1969, 12, 31)),
        Tenor::new(TenorType::HalfMonth, -1)
    );
}

// --- arithmetic ------------------------------------------------------------

#[test]
fn offset_arithmetic_by_value_and_reference() {
    let m = Tenor::month_from_ym0(2024, 0);
    assert_eq!(m + 1, Tenor::month_from_ym0(2024, 1));
    assert_eq!(&m - 1, Tenor::month_from_ym0(2023, 11));
    let mut n = m;
    n += 12;
    assert_eq!(n, Tenor::month_from_ym0(2025, 0));
    n -= 24;
    assert_eq!(n, Tenor::month_from_ym0(2023, 0));
    for ty in TenorType::iterator() {
        assert_eq!(Tenor::new(ty, 1) + 1, Tenor::new(ty, 2));
        assert_eq!(Tenor::new(ty, 1) - 1, Tenor::new(ty, 0));
    }
}

#[test]
fn checked_and_saturating() {
    let m = Tenor::new(TenorType::Month, 100);
    assert_eq!(m.checked_add(10), Some(Tenor::new(TenorType::Month, 110)));
    assert_eq!(m.checked_add(isize::MAX), None);
    assert_eq!(
        Tenor::new(TenorType::Month, isize::MIN).checked_sub(1),
        None
    );
    assert_eq!(
        m.saturating_add(isize::MAX),
        Tenor::new(TenorType::Month, isize::MAX)
    );
    assert_eq!(
        m.saturating_sub(isize::MAX),
        Tenor::new(TenorType::Month, 100_isize.saturating_sub(isize::MAX))
    );
}

#[test]
fn durations() {
    let m = Tenor::month_from_ym0(2024, 0);
    assert_eq!(
        (m + TenorDuration::new(TenorType::Quarter)).unwrap(),
        Tenor::month_from_ym0(2024, 3)
    );
    assert_eq!(
        (m + TenorDuration::new(TenorType::Year) * 4).unwrap(),
        Tenor::month_from_ym0(2028, 0)
    );
    assert_eq!(
        (m - TenorDuration::of(TenorType::Month, 13)).unwrap(),
        Tenor::month_from_ym0(2022, 11)
    );
    assert_eq!(
        (Tenor::quarter_from_yq0(2024, 0) + TenorDuration::new(TenorType::Month)),
        Err(TenorsError::IncompatibleTenors {
            tenor: TenorType::Quarter,
            duration: TenorType::Month
        })
    );
    assert_eq!(
        Tenor::new(TenorType::Month, isize::MAX) + TenorDuration::new(TenorType::Year),
        Err(TenorsError::ArithmeticOverflow)
    );
    assert_eq!(
        Tenor::new(TenorType::Month, 0) + TenorDuration::of(TenorType::Year, isize::MAX),
        Err(TenorsError::ArithmeticOverflow)
    );
    let d = TenorDuration::new(TenorType::Quarter) + 2 - 1;
    assert_eq!((d.tenor_type(), d.count()), (TenorType::Quarter, 2));
}

#[test]
fn ordering() {
    let m1 = Tenor::month_from_ym0(2024, 0);
    let m2 = Tenor::month_from_ym0(2024, 1);
    assert!(m1 < m2);
    assert_eq!(m1.partial_cmp(&Tenor::quarter_from_yq0(2024, 0)), None);
    let hm1 = Tenor::half_month_from_ymh0(2024, 0, 0);
    let hm2 = Tenor::half_month_from_ymh0(2024, 0, 1);
    let q1 = Tenor::quarter_from_yq0(2024, 0);
    let q2 = Tenor::quarter_from_yq0(2024, 1);
    let h1 = Tenor::half_year_from_yh0(2024, 0);
    let h2 = Tenor::half_year_from_yh0(2024, 1);
    let y1 = Tenor::year_from_y(2024);
    let y2 = Tenor::year_from_y(2025);
    let mut v = vec![y1, q2, hm1, m2, h1, q1, hm2, m1, h2, y2];
    v.sort_by(Tenor::cmp_by_granularity);
    assert_eq!(v, [hm1, hm2, m1, m2, q1, q2, h1, h2, y1, y2]);
}

// --- text ------------------------------------------------------------------

#[test]
fn display_every_type() {
    let c = century();
    assert_eq!(
        Tenor::half_month_from_ymh0(c + 20, 0, 0).to_string(),
        "1HF20"
    );
    assert_eq!(
        Tenor::half_month_from_ymh0(c + 20, 0, 1).to_string(),
        "2HF20"
    );
    assert_eq!(Tenor::month_from_ym0(c + 24, 0).to_string(), "F24");
    assert_eq!(Tenor::month_from_ym0(c + 24, 11).to_string(), "Z24");
    assert_eq!(Tenor::month_from_ym0(c + 3, 7).to_string(), "Q03");
    assert_eq!(Tenor::quarter_from_yq0(c + 24, 0).to_string(), "1Q24");
    assert_eq!(Tenor::half_year_from_yh0(c + 24, 1).to_string(), "2H24");
    assert_eq!(
        Tenor::year_from_y(c + 24).to_string(),
        format!("{:04}", c + 24)
    );
    // other centuries print the full year, zero-padded to four digits
    assert_eq!(Tenor::year_from_y(999).to_string(), "0999");
    assert_eq!(Tenor::month_from_ym0(1, 0).to_string(), "F0001");
    assert_eq!(Tenor::month_from_ym0(1999, 0).to_string(), "F1999");
    assert_eq!(Tenor::quarter_from_yq0(1969, 3).to_string(), "4Q1969");
    assert_eq!(
        Tenor::half_month_from_ymh0(2200, 5, 1).to_string(),
        "2HM2200"
    );
}

#[test]
fn parse_month_codes() {
    assert_eq!(t("F24"), Tenor::month_from_ym0(century() + 24, 0));
    assert_eq!(t("Z99"), Tenor::month_from_ym0(century() + 99, 11));
    assert_eq!(t("M00"), Tenor::month_from_ym0(century(), 5));
    assert_eq!(t("F7"), Tenor::month_from_ym0(decade() + 7, 0));
    assert_eq!(t("M0"), Tenor::month_from_ym0(decade(), 5));
    assert_eq!(t("F2024"), Tenor::month_from_ym0(2024, 0));
    assert_eq!(t("M1970"), Tenor::month_from_ym0(1970, 5));
    assert_eq!(t("F3000"), Tenor::month_from_ym0(3000, 0));
    // H and Q alone are months (March, August), not half-years/quarters
    assert_eq!(t("H24").tenor_type(), TenorType::Month);
    assert_eq!(t("Q2024"), Tenor::month_from_ym0(2024, 7));
    for bad in [
        "F", "A7", "FA", "A24", "F2A", "FX4", "F202", "A2024", "F202A", "F20245x",
    ] {
        assert!(bad.parse::<Tenor>().is_err(), "{bad}");
    }
    // three-digit years are neither short nor full: an error; four digits are literal
    assert!("F999".parse::<Tenor>().is_err());
    assert_eq!(t("F0999"), Tenor::month_from_ym0(999, 0));
}

#[test]
fn month_from_futures_code_and_cme_use_the_same_year_rule() {
    assert_eq!(Tenor::month_from_futures_code("F24").unwrap(), t("F24"));
    assert_eq!(Tenor::month_from_futures_code("F7").unwrap(), t("F7"));
    assert_eq!(
        Tenor::month_from_futures_code("F2024").unwrap(),
        Tenor::month_from_ym0(2024, 0)
    );
    assert_eq!(
        Tenor::month_from_futures_code("R24"),
        Err(TenorsError::UnparsableTenorString("R24".into()))
    );
    assert_eq!(
        Tenor::month_from_futures_code("F2t"),
        Err(TenorsError::UnparsableTenorString("F2t".into()))
    );
    assert_eq!(
        cme_tenor_parser("DEC 32").unwrap(),
        Tenor::month_from_ym0(century() + 32, 11)
    );
    assert_eq!(
        cme_tenor_parser("JLY 05").unwrap(),
        Tenor::month_from_ym0(century() + 5, 6)
    );
    assert_eq!(cme_tenor_parser("jan 24").unwrap(), t("F24"));
    for bad in ["DEC32", "DEC 3", "XYZ 32", "DEC  2", ""] {
        assert!(cme_tenor_parser(bad).is_err(), "{bad:?}");
    }
}

#[test]
fn parse_quarters_and_half_years() {
    let c = century();
    assert_eq!(t("1Q24"), Tenor::quarter_from_yq0(c + 24, 0));
    assert_eq!(t("4Q27"), Tenor::quarter_from_yq0(c + 27, 3));
    assert_eq!(t("24Q1"), Tenor::quarter_from_yq0(c + 24, 0));
    assert_eq!(t("2025Q4"), Tenor::quarter_from_yq0(2025, 3));
    assert_eq!(t("3Q2026"), Tenor::quarter_from_yq0(2026, 2));
    assert_eq!(t("1H24"), Tenor::half_year_from_yh0(c + 24, 0));
    assert_eq!(t("2H2025"), Tenor::half_year_from_yh0(2025, 1));
    assert_eq!(t("24H1"), Tenor::half_year_from_yh0(c + 24, 0));
    assert_eq!(t("2025H2"), Tenor::half_year_from_yh0(2025, 1));
    for bad in [
        "0Q24", "5Q24", "24Q0", "24Q5", "0H24", "3H24", "24H0", "24H3", "1Q", "Q", "1Qx4",
    ] {
        assert!(bad.parse::<Tenor>().is_err(), "{bad}");
    }
}

#[test]
fn parse_years() {
    let c = century();
    assert_eq!(t("C24"), Tenor::year_from_y(c + 24));
    assert_eq!(t("C00"), Tenor::year_from_y(c));
    assert_eq!(t("C2024"), Tenor::year_from_y(2024));
    assert_eq!(t("C1970"), Tenor::new(TenorType::Year, 0));
    assert_eq!(t("Cal24"), Tenor::year_from_y(c + 24));
    assert_eq!(t("CAL24"), Tenor::year_from_y(c + 24));
    assert_eq!(t("CaL2024"), Tenor::year_from_y(2024));
    assert_eq!(t("2024"), Tenor::year_from_y(2024));
    assert_eq!(t("1969"), Tenor::year_from_y(1969));
    assert_eq!(t("12345"), Tenor::year_from_y(12345));
    assert_eq!(t("0999"), Tenor::year_from_y(999));
    for bad in [
        "C", "C2", "C202", "Cal", "Cal2", "D24", "24", "202", "-2024",
    ] {
        assert!(bad.parse::<Tenor>().is_err(), "{bad}");
    }
}

#[test]
fn parse_half_months() {
    let c = century();
    assert_eq!(t("1HF24"), Tenor::half_month_from_ymh0(c + 24, 0, 0));
    assert_eq!(t("2HF24"), Tenor::half_month_from_ymh0(c + 24, 0, 1));
    assert_eq!(t("2HZ2024"), Tenor::half_month_from_ymh0(2024, 11, 1));
    for bad in ["3HF24", "1HA24", "1HF2", "1HF", "0HF24"] {
        assert!(bad.parse::<Tenor>().is_err(), "{bad}");
    }
}

#[test]
fn parse_with_reference_year() {
    assert_eq!(
        Tenor::parse_with_reference("F24", 1950).unwrap(),
        Tenor::month_from_ym0(1924, 0)
    );
    assert_eq!(
        Tenor::parse_with_reference("F7", 1983).unwrap(),
        Tenor::month_from_ym0(1987, 0)
    );
    assert_eq!(
        Tenor::parse_with_reference("1Q24", 2150).unwrap(),
        Tenor::quarter_from_yq0(2124, 0)
    );
    assert_eq!(
        Tenor::parse_with_reference("F2024", 1950).unwrap(),
        Tenor::month_from_ym0(2024, 0)
    );
}

#[test]
fn non_ascii_input_is_an_error_not_a_panic() {
    for s in ["C€", "€", "ÄÄ32", "F2€", "1HF2€", "1Q2€", "Ä"] {
        assert!(
            matches!(
                s.parse::<Tenor>(),
                Err(TenorsError::UnparsableTenorString(_))
            ),
            "{s}"
        );
        assert!(Tenor::month_from_futures_code(s).is_err(), "{s}");
        assert!(cme_tenor_parser(s).is_err(), "{s}");
    }
    assert!("".parse::<Tenor>().is_err());
}

#[test]
fn display_and_parse_round_trip_every_type_and_century() {
    let years = [
        1,
        999,
        1000,
        1800,
        1969,
        1970,
        1999,
        2000,
        century(),
        century() + 24,
        century() + 99,
        2100,
        2200,
        9999,
    ];
    let mut checked = 0;
    for year in years {
        for ty in TenorType::iterator() {
            for part in 0..ty.per_year() {
                let tenor = Tenor::from_parts(ty, year, part);
                let text = tenor.to_string();
                assert_eq!(text.parse::<Tenor>().unwrap(), tenor, "{tenor:?} -> {text}");
                checked += 1;
            }
        }
    }
    assert_eq!(checked, years.len() * 43); // 24 + 12 + 4 + 2 + 1 tenors per year
}
