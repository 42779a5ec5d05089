use ystudio::helpers::{parse_str_to_num, parse_vars};
use ystudio::ui::{AppUserInput, DataView};
use ystudio::signal::{burn_in, fft_progress, is_power_of_two, lowpass_valid, SpectrumReadiness};
use ystudio::text::{fmt_i64, fmt_u64, parse_i64, parse_u64, split_sep_exec, trim};
use ystudio::ylab::YLabVersion;

#[test]
fn number_prefix_is_extracted() {
    assert_eq!(parse_str_to_num("  123abc "), "123");
    assert_eq!(parse_str_to_num("42\r\n"), "42");
    assert_eq!(parse_str_to_num("abc"), "");
    assert_eq!(parse_str_to_num(""), "");
}

#[test]
fn finished_lines_are_collected() {
    let s = String::from("adc1\nadc2\npartial");
    assert_eq!(parse_vars(&s), vec![String::from("adc1"), String::from("adc2")]);
    let s = String::from("\n\na\n");
    assert_eq!(parse_vars(&s), vec![String::from("a")]);
    let s = String::from("abc");
    assert_eq!(parse_vars(&s), Vec::<String>::new());
}

#[test]
fn decimal_formatting_round_trips() {
    assert_eq!(fmt_u64(0), "0");
    assert_eq!(fmt_u64(18_446_744_073_709_551_615), "18446744073709551615");
    assert_eq!(fmt_i64(-5), "-5");
    assert_eq!(fmt_i64(i64::MIN), "-9223372036854775808");
    assert_eq!(parse_u64("18446744073709551615"), Some(u64::MAX));
    assert_eq!(parse_u64("18446744073709551616"), None);
    assert_eq!(parse_u64(""), None);
    assert_eq!(parse_u64("12a"), None);
    assert_eq!(parse_i64("-9223372036854775808"), Some(i64::MIN));
    assert_eq!(parse_i64("-9223372036854775809"), None);
    assert_eq!(parse_i64("7"), Some(7));
    assert_eq!(parse_i64("-"), None);
}

#[test]
fn splitting_keeps_empty_fields() {
    let parts = split_sep_exec("a,,b", ',');
    assert_eq!(parts, vec![String::from("a"), String::from(""), String::from("b")]);
    assert_eq!(split_sep_exec("", ','), vec![String::from("")]);
    assert_eq!(trim("  x\r\n"), "x");
}

#[test]
fn lowpass_validity_window() {
    // two seconds of data at 50 samples per second: the valid cutoffs lie
    // strictly between 0.25 Hz and 25 Hz
    assert!(!lowpass_valid(250, 2000, 100));
    assert!(lowpass_valid(251, 2000, 100));
    assert!(lowpass_valid(24_999, 2000, 100));
    assert!(!lowpass_valid(25_000, 2000, 100));
    assert!(!lowpass_valid(1000, 0, 100));
    assert!(!lowpass_valid(1000, 2000, 1));
}

#[test]
fn burn_in_formula() {
    assert_eq!(burn_in(1000, 45), 2 * (1000 / 45) + 1);
    assert_eq!(burn_in(500, 500), 3);
    assert_eq!(burn_in(499, 500), 1);
}

#[test]
fn spectral_readiness() {
    assert_eq!(fft_progress(256, 256), SpectrumReadiness::Ready);
    assert_eq!(fft_progress(300, 256), SpectrumReadiness::Ready);
    assert_eq!(fft_progress(64, 256), SpectrumReadiness::Buffering { permille: 250 });
    assert_eq!(fft_progress(0, 256), SpectrumReadiness::Buffering { permille: 0 });
}

#[test]
fn ui_state_holds_choices() {
    let v = DataView::PlotFft;
    assert_eq!(v, DataView::PlotFft);
    assert_ne!(v, DataView::Off);
    let input = AppUserInput {
        vars: String::from("y0"),
        y_include: String::new(),
        y_include_prev: String::new(),
        port: String::from("/dev/ttyACM0"),
        vars_prev: String::new(),
        log_name: String::new(),
    };
    assert_eq!(input.vars, "y0");
    assert_eq!(input.port, "/dev/ttyACM0");
}

#[test]
fn powers_of_two() {
    assert!(is_power_of_two(1));
    assert!(is_power_of_two(256));
    assert!(!is_power_of_two(0));
    assert!(!is_power_of_two(384));
    // every catalog spectral size is one
    for v in [
        YLabVersion::Zet,
        YLabVersion::Pro,
        YLabVersion::Go,
        YLabVersion::GoMotion(4),
        YLabVersion::GoStress,
        YLabVersion::Mini,
    ] {
        assert!(is_power_of_two(v.fft_size()));
    }
}
