use hypodj::civil::CivilTime;
use hypodj::client::grounding::content_keywords;
use hypodj::echo::{describe_plan, render_dsl};
use hypodj::mpd::command::{parse, MpdCommand, PlanCmd};
use hypodj::number::{
    dec2_u64, dec_i64, dec_u64, is_below_zero, parse_cut, parse_i32, parse_multiple, parse_real, parse_u16, parse_u64, parse_u8, real_text, Real, Span,
};
use hypodj::plan::{Action, RawPlan, RawTrigger};
use hypodj::text::{join, rfind, same_ignoring_case, split, split_once, split_whitespace, strip_prefix, trim};

#[test]
fn whole_numbers_read_as_std_reads_them() {
    for s in ["", "+", "-", "0", "007", "+5", "-5", "255", "256", "18446744073709551615",
        "18446744073709551616", "1a", " 1", "99999999999999999999999"] {
        assert_eq!(parse_u64(s), s.parse::<u64>().ok(), "{s}");
        assert_eq!(parse_u16(s), s.parse::<u16>().ok(), "{s}");
        assert_eq!(parse_u8(s), s.parse::<u8>().ok(), "{s}");
        assert_eq!(parse_i32(s), s.parse::<i32>().ok(), "{s}");
    }
}

#[test]
fn decimals_read_as_std_reads_them() {
    for s in ["0", "1.5", ".5", "5.", "-2.25", "+3", "1e3", "1.5E-2", "-0.000000001", "30"] {
        let x: f64 = s.parse().unwrap();
        assert_eq!(parse_real(s), Some(Real::Finite((x * 1e9).round() as i128)), "{s}");
    }
    assert_eq!(parse_real("inf"), Some(Real::PosInf));
    assert_eq!(parse_real("-Infinity"), Some(Real::NegInf));
    assert_eq!(parse_real("NaN"), Some(Real::Nan));
    for s in ["", ".", "e5", "1e", "1.2.3", "abc", "1 ", "--1"] {
        assert!(s.parse::<f64>().is_err());
        assert_eq!(parse_real(s), None, "{s}");
    }
}

#[test]
fn numbers_are_written_as_std_writes_them() {
    for n in [0u64, 7, 10, 999, u64::MAX] {
        assert_eq!(dec_u64(n), n.to_string());
    }
    for n in [0i64, -1, i64::MIN, i64::MAX] {
        assert_eq!(dec_i64(n), n.to_string());
    }
    assert_eq!(dec2_u64(5), "05");
    assert_eq!(dec2_u64(55), "55");
    for x in [0.0f64, 1.5, -2.25, 30.0, 0.125] {
        assert_eq!(real_text(Real::Finite((x * 1e9).round() as i128)), format!("{x}"));
    }
}

#[test]
fn spans_are_nanoseconds() {
    assert_eq!(Span::from_secs(2).nanos, 2_000_000_000);
    assert_eq!(Span::from_millis(250).nanos, 250_000_000);
    assert_eq!(Span::from_real(Real::Finite(-1)), None);
    assert_eq!(Span::from_real(Real::Nan), None);
    assert_eq!(Span::from_real(Real::Finite(1_500_000_000)), Some(Span { nanos: 1_500_000_000 }));
}

#[test]
fn texts_are_cut_as_std_cuts_them() {
    for s in ["", "a", "a: b: c", ": ", "a|b||c", "\u{a0}x \u{3000}", " a\tb  c ", "\u{e9} \u{c9}"] {
        assert_eq!(trim(s), s.trim());
        assert_eq!(split(s, "|"), s.split('|').map(|x| x.to_string()).collect::<Vec<_>>());
        assert_eq!(
            split_once(s, ": "),
            s.split_once(": ").map(|(a, b)| (a.to_string(), b.to_string()))
        );
        assert_eq!(
            split_whitespace(s),
            s.split_whitespace().map(|x| x.to_string()).collect::<Vec<_>>()
        );
        assert_eq!(strip_prefix(s, "a"), s.strip_prefix("a").map(|x| x.to_string()));
    }
    assert_eq!(rfind("a:b:c", ":"), Some(3));
    assert!(same_ignoring_case("OrIgin", "oRiGIN"));
    assert_eq!(join(&["a".to_string(), "b".to_string()], " | "), "a | b");
}

#[test]
fn letters_are_lowered_and_told_apart() {
    assert_eq!(content_keywords("PLAY \u{c9}T\u{c9}!"), "\u{e9}t\u{e9}");
    match parse("search TITLE \u{c9}") {
        MpdCommand::Search(pairs) => {
            assert_eq!(pairs, vec![("title".to_string(), "\u{c9}".to_string())])
        }
        other => panic!("got {other:?}"),
    }
}

fn at(secs: i64, nanos: u32) -> RawPlan {
    RawPlan {
        version: 1,
        trigger: RawTrigger::WallClock { at: CivilTime { secs, nanos } },
        action: Action::Stop,
        once: false,
        origin: String::new(),
    }
}

fn read_time(written: &str) -> Option<CivilTime> {
    match parse(&format!("plan add trigger at {written} action stop")) {
        MpdCommand::Plan(PlanCmd::Add(raw)) => match raw.trigger {
            RawTrigger::WallClock { at } => Some(at),
            other => panic!("got {other:?}"),
        },
        _ => None,
    }
}

#[test]
fn times_read_back() {
    let t = CivilTime { secs: 1_750_000_000, nanos: 0 };
    assert_eq!(
        render_dsl(&at(t.secs, t.nanos)).as_deref(),
        Some("trigger at 2025-06-15T15:06:40+00:00 action stop")
    );
    assert_eq!(read_time("2025-06-15T15:06:40+00:00"), Some(t));
    assert_eq!(describe_plan(&at(t.secs, t.nanos)), "stop playback at 2025-06-15 15:06 UTC");
    assert_eq!(
        read_time("2025-06-15T17:06:40.5+02:00"),
        Some(CivilTime { secs: 1_750_000_000, nanos: 500_000_000 })
    );
    assert_eq!(read_time("tomorrow"), None);
    let earlier = CivilTime { secs: 1_749_999_999, nanos: 500_000_000 };
    assert_eq!(t.after(earlier), Some(Span { nanos: 500_000_000 }));
    assert_eq!(earlier.after(t), None);
}

#[test]
fn spans_between_times_are_those_of_chrono() {
    let day: i64 = 86_400;
    let times = [
        (-1, 500_000_000),
        (0, 0),
        (5, 1_200_000_000),
        (59, 0),
        (59, 1_000_000_000),
        (59, 1_500_000_000),
        (60, 0),
        (3_600, 999_999_999),
        (day - 1, 0),
        (day - 1, 1_999_999_999),
        (day + 5, 0),
        (day + 59, 1_250_000_000),
        (3 * day + 30, 0),
        (-day + 59, 1_000_000_000),
        (-3 * day + 7, 0),
    ];
    for (s, n) in times {
        for (t, m) in times {
            let a = chrono::DateTime::from_timestamp(s, n);
            let b = chrono::DateTime::from_timestamp(t, m);
            let (a, b) = match (a, b) {
                (Some(a), Some(b)) => (a, b),
                _ => continue,
            };
            let ours = CivilTime { secs: s, nanos: n }.after(CivilTime { secs: t, nanos: m });
            assert_eq!(
                ours.map(|x| x.nanos),
                (a - b).to_std().ok().map(|x| x.as_nanos()),
                "{s}.{n} after {t}.{m}"
            );
        }
    }
    let leap = CivilTime { secs: day + 59, nanos: 1_000_000_000 };
    let later_in_the_day = CivilTime { secs: 3_600, nanos: 0 };
    assert_eq!(leap.after(later_in_the_day), Some(Span::from_secs(82_859)));
}

#[test]
fn what_lies_below_zero_is_what_std_puts_there() {
    let half = "24703282292062327208828439643411068618252990130716238221279284125033775363510437593264991818081799618989828234772285886546332835517796989819938739800539093906315035659515570226392290858392449105184435931802849936536152500319370457678249219365623669863658480757001585769269903706311928279558551332927834338409351978015531246597263579574622766465272827220056374006485499977096599470454020828166226237857393450736339007967761930577506740176324673600968951340535537458516661134223766678604162159680461914467291840300530057530849048765391711386591646239524912623653881879636239373280423891018672348497668235089863388587925628302755995657524455507255189313690836254779186948667994968324049705821028513185451396213837722826145437693412532098591327667236328125";
    let more = format!("-0.{}{half}1", "0".repeat(323));
    let just = format!("-0.{}{half}", "0".repeat(323));
    let less = format!("-0.{}24703282292062327208828439643411068618252990130716238221279284125033775363510437593264991818081799618989828234772285886546332835517796989819938739800539093906315035659515570226392290858392449105184435931802849936536152500319370457678249219365623669863658480757001585769269903706311928279558551332927834338409351978015531246597263579574622766465272827220056374006485499977096599470454020828166226237857393450736339007967761930577506740176324673600968951340535537458516661134223766678604162159680461914467291840300530057530849048765391711386591646239524912623653881879636239373280423891018672348497668235089863388587925628302755995657524455507255189313690836254779186948667994968324049705821028513185451396213837722826145437693412532098591327667236328124", "0".repeat(323));
    let zeros = format!("{just}000");
    let shifted = format!("-{half}e-1075");
    let shifted_more = format!("-{half}01e-1077");
    for s in [
        "-1", "-0", "-0.0", "-0e5", "-1e-300", "-1e-323", "-5e-324", "-3e-324", "-2.5e-324",
        "-2.4703282292062328e-324", "-2.4703282292062327e-324", "-2e-324", "-1e-324", "-9e-325",
        "-24.8e-325", "-0.0247e-322", "-1e-400", "-0.00000000001", "1", "+1e-324", "0", "-", "-e5",
        more.as_str(), just.as_str(), less.as_str(), zeros.as_str(), shifted.as_str(),
        shifted_more.as_str(),
    ] {
        assert_eq!(is_below_zero(s), s.parse::<f64>().map_or(false, |x| x < 0.0), "{s}");
    }
    assert!(is_below_zero(more.as_str()));
    assert!(!is_below_zero(just.as_str()));
    assert!(!is_below_zero("-2e-324"));
    assert!(is_below_zero("-3e-324"));
}

#[test]
fn multiples_are_rounded_once() {
    assert_eq!(parse_multiple("2", 3600), Some(7_200_000_000_000));
    assert_eq!(parse_multiple("0.3333333333333", 3600), Some(1_200_000_000_000));
    assert_eq!(parse_multiple("0.00000000013888888888", 3600), Some(500));
    assert_eq!(parse_multiple("0.0000000000001388888888888889", 3600), Some(1));
    assert_eq!(parse_multiple("0.0000000000001388888888888888", 3600), Some(0));
    assert_eq!(parse_multiple("1e-13", 3600), Some(0));
    assert_eq!(parse_multiple("2e-13", 3600), Some(1));
    assert_eq!(parse_multiple("1e-30", 3600), Some(0));
    assert_eq!(parse_multiple("1.5", 60), Some(90_000_000_000));
    assert_eq!(parse_multiple("0.0000000005", 1), Some(1));
    assert_eq!(parse_multiple("0.0000000004999", 1), Some(0));
    assert_eq!(parse_multiple("+1e3", 1), Some(1_000_000_000_000));
    assert_eq!(parse_multiple("000", 60), Some(0));
    assert_eq!(parse_multiple("1e400", 1), None);
    assert_eq!(parse_multiple("1e30", 1), None);
    assert_eq!(parse_multiple("18446744073709551615", 1), Some(18_446_744_073_709_551_615_000_000_000));
    assert_eq!(parse_multiple("18446744073709551615", 60), None);
    assert_eq!(parse_multiple("inf", 1), None);
    assert_eq!(parse_multiple("x", 1), None);
    assert_eq!(parse_multiple("", 1), None);
}

#[test]
fn infinity_begins_where_std_lets_it_begin() {
    let inf = "179769313486231580793728971405303415079934132710037826936173778980444968292764750946649017977587207096330286416692887910946555547851940402630657488671505820681908902000708383676273854845817711531764475730270069855571366959622842914819860834936475292719074168444365510704342711559699508093042880";
    let below = "179769313486231580793728971405303415079934132710037826936173778980444968292764750946649017977587207096330286416692887910946555547851940402630657488671505820681908902000708383676273854845817711531764475730270069855571366959622842914819860834936475292719074168444365510704342711559699508093042879.9";
    for s in ["1e308", "1.7976931348623157e308", "1.8e308", "2e308", "0.0002e312", "1e309", "-2e308", inf, below] {
        let x: f64 = s.parse().unwrap();
        let r = parse_real(s).unwrap();
        assert_eq!(r.is_finite(), x.is_finite(), "{s}");
    }
    assert_eq!(parse_real("-2e308"), Some(Real::NegInf));
}

#[test]
fn what_is_cut_is_not_rounded() {
    assert_eq!(parse_cut("0.9999999999"), Some(Real::Finite(999_999_999)));
    assert_eq!(parse_real("0.9999999999"), Some(Real::Finite(1_000_000_000)));
    assert_eq!(parse_cut("-0.9999999999"), Some(Real::Finite(-999_999_999)));
    assert!(is_below_zero("-1e-300"));
    assert!(!is_below_zero("-0.000"));
    assert!(!is_below_zero("-1e-400"));
    assert!(!is_below_zero("5"));
    assert!(!is_below_zero("-x"));
}
