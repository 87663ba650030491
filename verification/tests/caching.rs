use typed_env::Envar;
use typed_env::EnvarDef;
use typed_env::EnvarError;
use typed_env::ErrorReason;
use typed_env::ReasonInput;

#[test]
fn test_on_startup_vs_on_demand() {
    let mut var_startup: Envar<i32> = Envar::on_startup("TEST_STARTUP", EnvarDef::Unset);
    assert_eq!(var_startup.value(Some("42".to_string())).unwrap(), 42);

    // Change the raw value - on_startup still returns the committed value.
    assert_eq!(var_startup.value(Some("100".to_string())).unwrap(), 42);

    let mut var_demand: Envar<i32> = Envar::on_demand("TEST_DEMAND", EnvarDef::Unset);
    assert_eq!(var_demand.value(Some("42".to_string())).unwrap(), 42);

    // Change the raw value - on_demand should return the new value.
    assert_eq!(var_demand.value(Some("100".to_string())).unwrap(), 100);
}

#[test]
fn test_default_values() {
    let mut var_default_set: Envar<i32> =
        Envar::on_demand("TEST_DEFAULT_SET", EnvarDef::Default(999));
    assert_eq!(var_default_set.value(None).unwrap(), 999);

    // With the variable set, the raw value overrides the default.
    assert_eq!(var_default_set.value(Some("123".to_string())).unwrap(), 123);

    let mut var_default_unset: Envar<i32> = Envar::on_demand("TEST_DEFAULT_UNSET", EnvarDef::Unset);
    let result = var_default_unset.value(None);
    assert!(result.is_err());
    match result.err().unwrap() {
        EnvarError::NotSet(varname) => {
            assert_eq!(varname, "TEST_DEFAULT_UNSET");
        }
        _ => panic!("Expected NotSet error"),
    }
}

#[test]
fn test_envar_name() {
    let var: Envar<i32> = Envar::on_demand("MY_VAR_NAME", EnvarDef::Unset);
    assert_eq!(var.name(), "MY_VAR_NAME");
}

#[test]
fn test_envar_def_to_option() {
    let set_def = EnvarDef::Default(42);
    assert_eq!(set_def.to_option(), Some(42));

    let unset_def: EnvarDef<i32> = EnvarDef::Unset;
    assert_eq!(unset_def.to_option(), None);
}

#[test]
fn test_startup_failed_parse_does_not_commit() {
    let mut var: Envar<i32> = Envar::on_startup("TEST_STARTUP_RETRY", EnvarDef::Unset);
    assert!(var.value(Some("garbled".to_string())).is_err());
    // The slot is still empty, so a corrected raw value can commit.
    assert_eq!(var.value(Some("7".to_string())).unwrap(), 7);
    assert_eq!(var.value(Some("8".to_string())).unwrap(), 7);
}

#[test]
fn test_startup_absent_commits_default() {
    let mut var: Envar<i32> = Envar::on_startup("TEST_STARTUP_DEFAULT", EnvarDef::Default(5));
    assert_eq!(var.value(None).unwrap(), 5);
    // The default was committed; a raw value that appears later is ignored.
    assert_eq!(var.value(Some("9".to_string())).unwrap(), 5);
}

#[test]
fn test_startup_blank_optional_commits_default() {
    let mut var: Envar<Option<i32>> =
        Envar::on_startup("TEST_STARTUP_OPT", EnvarDef::Default(Some(1)));
    assert_eq!(var.value(Some("  ".to_string())).unwrap(), Some(1));
    assert_eq!(var.value(Some("77".to_string())).unwrap(), Some(1));
}

#[test]
fn test_demand_notset_then_recovers() {
    let mut var: Envar<u16> = Envar::on_demand("TEST_DEMAND_RECOVER", EnvarDef::Unset);
    assert!(matches!(var.value(None), Err(EnvarError::NotSet(n)) if n == "TEST_DEMAND_RECOVER"));
    assert_eq!(var.value(Some("80".to_string())).unwrap(), 80);
    assert_eq!(var.value(Some("80".to_string())).unwrap(), 80);
    assert!(matches!(var.value(None), Err(EnvarError::NotSet(_))));
}

#[test]
fn test_demand_parse_error_keeps_cache() {
    let mut var: Envar<i32> = Envar::on_demand("TEST_DEMAND_KEEP", EnvarDef::Unset);
    assert_eq!(var.value(Some("3".to_string())).unwrap(), 3);
    assert!(var.value(Some("bad".to_string())).is_err());
    // The cached pair still answers for the old raw value.
    assert_eq!(var.value(Some("3".to_string())).unwrap(), 3);
}

#[test]
fn test_error_reason_computes_once() {
    let mut reason = ErrorReason::new(ReasonInput::Verbatim("the raw text".to_string()));
    assert_eq!(reason.as_str(), "the raw text");
    assert_eq!(reason.as_str(), "the raw text");
}
