use luoshu::regs::ConfigurationReg;
use luoshu::service::Service;
use luoshu::ident::{default_namespace, get_default_uuid4};
use luoshu::namespace::Namespace;
use luoshu::resp::{ErrorArgs, Resp};
use luoshu::util::{add, decimal_string, sum_as_string};
use serde_json::Value;

#[test]
fn it_works() {
    let result = add(2, 2);
    assert_eq!(result, 4);
}

fn is_v4_text(s: &str) -> bool {
    let cs: Vec<char> = s.chars().collect();
    cs.len() == 36
        && cs.iter().enumerate().all(|(i, c)| {
            if i == 8 || i == 13 || i == 18 || i == 23 {
                *c == '-'
            } else {
                c.is_ascii_digit() || ('a'..='f').contains(c)
            }
        })
        && cs[14] == '4'
}

#[test]
fn uuid_text_is_hyphenated_v4() {
    let a = get_default_uuid4();
    let b = get_default_uuid4();
    assert!(is_v4_text(&a));
    assert!(is_v4_text(&b));
    assert_ne!(a, b);
}

#[test]
fn default_namespace_values() {
    assert_eq!(default_namespace(), "default");
    let ns = Namespace::default();
    assert_eq!(ns.name, "default");
    assert_eq!(ns.id, "00000000-0000-0000-0000-000000000000");
    let named = Namespace::from("hello");
    assert_eq!(named.name, "hello");
    assert!(is_v4_text(&named.id));
}

#[test]
fn clock_is_after_epoch() {
    let s = Service::new("h".into(), 1);
    assert!(s.reg_time > 1_600_000_000);
}

#[test]
fn clone_value_is_equal() {
    let v = Value::String("{\"hello\": \"world\"}".into());
    let reg = ConfigurationReg::new("ns".into(), "n".into(), v.clone());
    let copy = reg.clone();
    assert_eq!(copy.config, v);
    assert_eq!(copy.name, "n");
}

#[test]
fn sums_as_decimal_text() {
    assert_eq!(sum_as_string(2, 3), "5");
    assert_eq!(sum_as_string(0, 0), "0");
    assert_eq!(sum_as_string(1234, 5), "1239");
    assert_eq!(sum_as_string(95, 5), "100");
    assert_eq!(decimal_string(usize::MAX), usize::MAX.to_string());
}

#[test]
fn response_success_and_errors() {
    let ok = Resp::success(5u32);
    assert!(ok.is_success);
    assert_eq!(ok.code, 0);
    assert_eq!(ok.data, Some(5));
    assert_eq!(ok.message, "ok");

    let e: Resp<String> = Resp::error(String::from("bad").into());
    assert!(!e.is_success);
    assert_eq!(e.code, 1);
    assert_eq!(e.data, None);
    assert_eq!(e.message, "bad");

    let e: Resp<String> = Resp::error(ErrorArgs::from((String::from("worse"), 7u8)));
    assert_eq!(e.code, 7);
    assert_eq!(e.message, "worse");

    let d: Resp<u8> = Resp::default();
    assert!(d.is_success);
    assert_eq!(d.code, 0);
    assert_eq!(d.data, None);
    assert_eq!(d.message, "ok");
}
