use pgdo::config::MemoryUnit::{self, Bytes, Gibibytes, Kibibytes, Mebibytes, Tebibytes};
use pgdo::config::TimeUnit::{self, Days, Hours, Microseconds, Milliseconds, Minutes, Seconds};
use pgdo::config::{AlterSystem, Parameter, Setting, Value};

#[test]
fn test_parameter_as_sql() {
    assert_eq!(Parameter("foo").as_sql(), "\"foo\"");
    assert_eq!(Parameter("foo \\bar").as_sql(), "\"foo \\bar\"");
    assert_eq!(Parameter("foo\"bar").as_sql(), "\"foo\"\"bar\"");
}

#[test]
fn test_value_as_sql_bool() {
    assert_eq!(Value::Boolean(false).as_sql(), "false");
    assert_eq!(Value::Boolean(true).as_sql(), "true");
}

#[test]
fn test_value_as_sql_string() {
    assert_eq!(Value::from("foo").as_sql(), "'foo'");
    assert_eq!(Value::from("foo \\bar").as_sql(), " E'foo \\\\bar'");
    assert_eq!(Value::from("foo'\"'bar").as_sql(), "'foo''\"''bar'");
}

#[test]
fn test_value_as_sql_number() {
    // Numbers are represented as strings, and displayed verbatim, with no
    // escaping.
    assert_eq!(Value::Number("123".into()).as_sql(), "123");
    assert_eq!(Value::Number("123.456".into()).as_sql(), "123.456");
}

#[test]
fn test_value_as_sql_memory() {
    assert_eq!(
        Value::Memory("123.4".into(), Gibibytes).as_sql(),
        "'123.4GB'",
    );
}

#[test]
fn test_value_as_sql_time() {
    assert_eq!(Value::Time("123.4".into(), Hours).as_sql(), "'123.4h'",);
}

#[test]
fn test_memory_unit_roundtrip() {
    let units = &[Bytes, Kibibytes, Mebibytes, Gibibytes, Tebibytes];
    for unit in units {
        assert_eq!(unit.to_string().parse::<MemoryUnit>(), Ok(*unit));
    }
}

#[test]
fn test_time_unit_roundtrip() {
    let units = &[Microseconds, Milliseconds, Seconds, Minutes, Hours, Days];
    for unit in units {
        assert_eq!(unit.to_string().parse::<TimeUnit>(), Ok(*unit));
    }
}

#[test]
fn unit_parse_rejects_unknown_symbols() {
    assert_eq!(MemoryUnit::parse("kb"), Err("invalid memory unit: \"kb\"".to_string()));
    assert_eq!(TimeUnit::parse("sec"), Err("invalid time unit: \"sec\"".to_string()));
}

#[test]
fn value_displays_with_its_unit() {
    assert_eq!(Value::Memory("128".into(), Mebibytes).to_string(), "128MB");
    assert_eq!(Value::Time("5".into(), Minutes).to_string(), "5min");
    assert_eq!(Value::Boolean(true).to_string(), "true");
    assert_eq!(Value::from(42u32), Value::Number("42".into()));
    assert_eq!(Value::from(false), Value::Boolean(false));
    assert_eq!(Value::from(String::from("on")), Value::String("on".into()));
}

#[test]
fn alter_system_sql() {
    let p = Parameter("work_mem");
    let v = Value::Memory("64".into(), Mebibytes);
    assert_eq!(AlterSystem::Assign(&p, &v).as_sql(), "ALTER SYSTEM SET \"work_mem\" TO '64MB'");
    assert_eq!(AlterSystem::Reset(&p).as_sql(), "ALTER SYSTEM RESET \"work_mem\"");
    assert_eq!(AlterSystem::ResetAll.as_sql(), "ALTER SYSTEM RESET ALL");
}

fn setting(vartype: &str, value: &str, unit: Option<&str>) -> Setting {
    Setting {
        name: "x".into(),
        setting: value.into(),
        unit: unit.map(String::from),
        category: String::new(),
        short_desc: String::new(),
        extra_desc: None,
        context: String::new(),
        vartype: vartype.into(),
        source: String::new(),
        min_val: None,
        max_val: None,
        enumvals: None,
        boot_val: None,
        reset_val: None,
        sourcefile: None,
        sourceline: None,
        pending_restart: false,
    }
}

#[test]
fn value_from_setting() {
    assert_eq!(Value::from_setting(&setting("bool", "on", None)), Ok(Value::Boolean(true)));
    assert_eq!(Value::from_setting(&setting("bool", "0", None)), Ok(Value::Boolean(false)));
    assert!(Value::from_setting(&setting("bool", "maybe", None)).is_err());
    assert_eq!(
        Value::from_setting(&setting("integer", "4096", Some("kB"))),
        Ok(Value::Memory("4096".into(), Kibibytes))
    );
    assert_eq!(
        Value::from_setting(&setting("integer", "4096", Some("8kB"))),
        Ok(Value::Number("4096".into()))
    );
    assert_eq!(
        Value::from_setting(&setting("real", "200", Some("ms"))),
        Ok(Value::Time("200".into(), Milliseconds))
    );
    assert_eq!(
        Value::from_setting(&setting("integer", "100", None)),
        Ok(Value::Number("100".into()))
    );
    assert!(Value::from_setting(&setting("integer", "1", Some("parsecs"))).is_err());
    assert_eq!(
        Value::from_setting(&setting("enum", "replica", None)),
        Ok(Value::String("replica".into()))
    );
    assert!(Value::from_setting(&setting("weird", "x", None)).is_err());
}
