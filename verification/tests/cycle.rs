use gbc::cpu::cpu::{CycleError, CycleField, CycleState};
use serde_json::Value;

/// One element of a recorded cycle, as the JSON reader sees it.
fn field(v: &Value) -> CycleField {
    match v {
        Value::Null => CycleField::Null,
        Value::Number(n) => CycleField::Number(n.as_u64()),
        Value::String(s) => CycleField::Text(s.as_bytes().to_vec()),
        _ => CycleField::Other,
    }
}

#[derive(Debug)]
enum ReadError {
    Json,
    NotAList,
    Cycle(CycleError),
}

fn read_cycle(text: &str) -> Result<CycleState, ReadError> {
    let v: Value = serde_json::from_str(text).map_err(|_| ReadError::Json)?;
    match v {
        Value::Array(items) => {
            let fields: Vec<CycleField> = items.iter().map(field).collect();
            CycleState::from_fields(&fields).map_err(ReadError::Cycle)
        }
        _ => Err(ReadError::NotAList),
    }
}

#[test]
fn deserialize_cycle_state() {
    // valid
    let cs_str = r#"[24525,174,"r-m"]"#;
    let cs: CycleState = read_cycle(cs_str).unwrap();
    assert_eq!(Some(24525), cs.addr);
    assert_eq!(Some(174), cs.data);
    assert!(cs.r);
    assert!(!cs.w);
    assert!(cs.m);

    // valid, includes nulls
    let cs_str = r#"[null,null,"-w-"]"#;
    let cs: CycleState = read_cycle(cs_str).unwrap();
    assert_eq!(None, cs.addr);
    assert_eq!(None, cs.data);
    assert!(!cs.r);
    assert!(cs.w);
    assert!(!cs.m);

    // invalid 0
    let cs_str = r#"[null,null,"-w-foo"]"#;
    let should_fail = read_cycle(cs_str);
    if let Ok(_) = should_fail {
        panic!("expected string to fail deserialization");
    }

    // invalid 1
    let cs_str = r#"[null,null,"-w-o"#;
    let should_fail = read_cycle(cs_str);
    if let Ok(_) = should_fail {
        panic!("expected string to fail deserialization");
    }

    // invalid 2
    let cs_str = r#"[null,"string","rwm"]"#;
    let should_fail = read_cycle(cs_str);
    if let Ok(_) = should_fail {
        panic!("expected string to fail deserialization");
    }
}

#[test]
fn cycle_errors_name_the_bad_element() {
    assert!(matches!(read_cycle(r#"["x",1,"rwm"]"#), Err(ReadError::Cycle(CycleError::Address))));
    assert!(matches!(read_cycle(r#"[-1,1,"rwm"]"#), Err(ReadError::Cycle(CycleError::Address))));
    assert!(matches!(read_cycle(r#"[1,2.5,"rwm"]"#), Err(ReadError::Cycle(CycleError::Data))));
    assert!(matches!(read_cycle(r#"[1,2,"rw"]"#), Err(ReadError::Cycle(CycleError::Pins))));
    assert!(matches!(read_cycle(r#"[1,2,7]"#), Err(ReadError::Cycle(CycleError::Pins))));
    assert!(matches!(read_cycle("[1,2,\"\u{e9}\u{e9}\u{e9}\"]"), Err(ReadError::Cycle(CycleError::Pins))));
    assert!(matches!(read_cycle(r#"[1,2,"rwm",4]"#), Err(ReadError::Cycle(CycleError::Length))));
    assert!(matches!(read_cycle(r#"{"a":1}"#), Err(ReadError::NotAList)));
}

#[test]
fn cycle_fields_truncate_and_default() {
    let cs = read_cycle(r#"[65537,258]"#).unwrap();
    assert_eq!(cs.addr, Some(1));
    assert_eq!(cs.data, Some(2));
    assert!(!cs.r && !cs.w && !cs.m);
    let cs = read_cycle("[]").unwrap();
    assert_eq!(cs, CycleState { addr: None, data: None, r: false, w: false, m: false });
    assert_eq!(CycleState::pins(b"rwm"), Some((true, true, true)));
    assert_eq!(CycleState::pins(b"---"), Some((false, false, false)));
    assert_eq!(CycleState::pins(b"rw"), None);
}
