use reenix::base::debug::{get_default, DebugModes, ALL, CORE, MM, NONE, PANIC, TEST};
use reenix::base::cell::SafeCell;
use reenix::base::ctype::{
    is_alpha, is_alphanum, is_ascii, is_blank, is_cntrl, is_digit, is_graph, is_lower, is_print,
    is_punc, is_space, is_upper, is_xdigit,
};
use reenix::base::devices::DeviceId;
use reenix::base::from_str::from_str;
use reenix::base::sync::SpinOnce;

#[test]
fn ctype_classes() {
    assert!(is_blank(b' ') && is_blank(b'\t') && !is_blank(b'\n'));
    assert!(is_space(b'\n') && is_space(b'\r') && is_space(0x0b) && is_space(0x0c) && !is_space(b'a'));
    assert!(is_upper(b'Q') && !is_upper(b'q'));
    assert!(is_lower(b'q') && !is_lower(b'Q'));
    assert!(is_digit(b'0') && is_digit(b'9') && !is_digit(b'a'));
    assert!(is_xdigit(b'f') && is_xdigit(b'F') && !is_xdigit(b'g'));
    assert!(is_alpha(b'z') && !is_alpha(b'1'));
    assert!(is_alphanum(b'1') && is_alphanum(b'Z') && !is_alphanum(b'-'));
    assert!(is_punc(b'\'') && is_punc(b'~') && !is_punc(b' '));
    assert!(is_graph(b'#') && !is_graph(b' '));
    assert!(is_print(b' ') && is_print(b'x') && !is_print(0x7f));
}

#[test]
fn ctype_ascii_and_control() {
    // Everything below DEL counts as ascii; DEL itself does not.
    assert!(is_ascii(0x7e));
    assert!(!is_ascii(0x7f));
    assert!(!is_ascii(0x80));
    assert!(is_cntrl(0x00) && is_cntrl(b'\n'));
    assert!(!is_cntrl(b' '));
    assert!(!is_cntrl(0x7f));
}

#[test]
fn device_id_round_trip() {
    let d = DeviceId::create(3, 1);
    assert_eq!(d.0, 0x301);
    assert_eq!(d.get_major(), 3);
    assert_eq!(d.get_minor(), 1);
    let e = DeviceId(0xfe07);
    assert_eq!(DeviceId::create(e.get_major(), e.get_minor()), e);
}

#[test]
fn from_str_unsigned() {
    assert_eq!(from_str::<u8>("42"), Some(42u8));
    assert_eq!(from_str::<u32>("0x1f"), Some(31u32));
    assert_eq!(from_str::<u32>("0b101"), Some(5u32));
    assert_eq!(from_str::<u32>("0o17"), Some(15u32));
    assert_eq!(from_str::<u64>(" \t1_000,000 "), Some(1_000_000u64));
    assert_eq!(from_str::<u16>("0xFF"), Some(255u16));
}

#[test]
fn from_str_saturates() {
    assert_eq!(from_str::<u8>("300"), Some(255u8));
    assert_eq!(from_str::<u16>("99999999"), Some(65535u16));
    assert_eq!(from_str::<i8>("300"), Some(127i8));
    assert_eq!(from_str::<i8>("-300"), Some(-128i8));
}

#[test]
fn from_str_signed() {
    assert_eq!(from_str::<i32>("-17"), Some(-17i32));
    assert_eq!(from_str::<i64>("  -0x10"), Some(-16i64));
    assert_eq!(from_str::<i16>("123"), Some(123i16));
    assert_eq!(from_str::<i8>("-126"), Some(-126i8));
    assert_eq!(from_str::<i8>("-127"), Some(-127i8));
    assert_eq!(from_str::<i8>("-128"), Some(-128i8));
    assert_eq!(from_str::<i8>("-129"), Some(-128i8));
    assert_eq!(from_str::<i64>("-9223372036854775808"), Some(i64::MIN));
}

#[test]
fn from_str_errors_and_empty() {
    // An empty unsigned number is zero; an empty signed one is refused.
    assert_eq!(from_str::<u8>(""), Some(0u8));
    assert_eq!(from_str::<i8>(""), None);
    assert_eq!(from_str::<u32>("12a"), None);
    assert_eq!(from_str::<u32>("0x1g"), None);
    assert_eq!(from_str::<i32>("--1"), None);
    assert_eq!(from_str::<u8>("-1"), None);
}

#[test]
fn from_str_bool() {
    assert_eq!(from_str::<bool>("true"), Some(true));
    assert_eq!(from_str::<bool>("false"), Some(false));
    assert_eq!(from_str::<bool>("True"), None);
    assert_eq!(from_str::<bool>(" true"), None);
}

#[test]
fn spin_once_runs_once() {
    let mut once = SpinOnce::new();
    assert!(once.try_it(|| {}));
    assert!(!once.try_it(|| {}));
    once.doit(|| {});
    assert!(!once.try_it(|| {}));
}

#[test]
fn safe_cell_read_back() {
    let mut c = SafeCell::new(5u32);
    assert_eq!(*c.get_ref(), 5);
    *c.get_mut() = 9;
    assert_eq!(*c.get_ref(), 9);
}

#[test]
fn debug_modes() {
    assert_eq!(CORE, 1);
    assert_eq!(PANIC, 1 << 63);
    assert_eq!(get_default(NONE), ALL);
    let mut d = DebugModes::new();
    assert!(d.is_printed(TEST));
    d.setup(MM);
    assert!(!d.is_printed(MM));
    assert!(d.is_printed(CORE | MM));
    d.remove_mode(TEST);
    assert!(!d.is_printed(TEST));
    assert!(d.is_printed(CORE));
    d.add_mode(TEST);
    assert!(d.is_printed(TEST));
    assert_eq!(d.get_debug_active(), ALL & !MM);
}
