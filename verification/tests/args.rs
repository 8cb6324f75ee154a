use zeroblog_server::args::{args_from_values, is_u16, parse_u16};

#[test]
fn port_validation_accepts_ports() {
    assert_eq!(is_u16("8000".to_string()), Ok(()));
    assert_eq!(is_u16("0".to_string()), Ok(()));
    assert_eq!(is_u16("65535".to_string()), Ok(()));
    assert_eq!(is_u16("+80".to_string()), Ok(()));
}

#[test]
fn port_validation_refuses_with_message() {
    assert_eq!(is_u16("65536".to_string()), Err("'65536' cannot be parsed to u16.".to_string()));
    assert_eq!(is_u16("-1".to_string()), Err("'-1' cannot be parsed to u16.".to_string()));
    assert_eq!(is_u16("".to_string()), Err("'' cannot be parsed to u16.".to_string()));
    assert_eq!(is_u16("+".to_string()), Err("'+' cannot be parsed to u16.".to_string()));
    assert_eq!(is_u16("80a".to_string()), Err("'80a' cannot be parsed to u16.".to_string()));
    assert_eq!(is_u16(" 80".to_string()), Err("' 80' cannot be parsed to u16.".to_string()));
}

#[test]
fn port_parsing_matches_std() {
    for s in ["0", "7", "8000", "65535", "65536", "99999999999", "+1", "++1", "-0", "", "+", "1 ", "00080", "٣"] {
        assert_eq!(parse_u16(s), s.parse::<u16>().ok(), "input {:?}", s);
    }
}

#[test]
fn settings_are_built_from_values() {
    let a = args_from_values(Some("8000"), Some("/data/zeronet"), Some("1BlogAddr")).unwrap();
    assert_eq!(a.rocket_port, 8000);
    assert_eq!(a.zeronet_path, "/data/zeronet");
    assert_eq!(a.site_address, "1BlogAddr");
}

#[test]
fn settings_need_every_value() {
    assert!(args_from_values(None, Some("/z"), Some("a")).is_none());
    assert!(args_from_values(Some("80"), None, Some("a")).is_none());
    assert!(args_from_values(Some("80"), Some("/z"), None).is_none());
    assert!(args_from_values(Some("port"), Some("/z"), Some("a")).is_none());
}

#[test]
fn validated_port_is_accepted() {
    for p in ["1", "443", "+8080"] {
        assert!(is_u16(p.to_string()).is_ok());
        assert!(args_from_values(Some(p), Some("/z"), Some("a")).is_some());
    }
}

#[test]
fn port_roundtrips_through_decimal() {
    for port in [0u16, 9, 10, 8000, 65535] {
        let mut s = String::new();
        zeroblog_server::text::push_decimal(&mut s, port as usize);
        assert_eq!(s, port.to_string());
        assert_eq!(parse_u16(&s), Some(port));
    }
}
