use typed_env::Envar;
use typed_env::EnvarDef;
use typed_env::EnvarError;

#[test]
fn test_parse_i32() {
    let mut var: Envar<i32> = Envar::on_demand("T1_TEST_I32", EnvarDef::Unset);

    let value = var.value(None);
    assert!(value.is_err());
    assert!(
        matches!(value.err().unwrap(), EnvarError::NotSet(varname) if varname == "T1_TEST_I32")
    );

    let mut var2: Envar<i32> = Envar::on_demand("T1_TEST_I32", EnvarDef::Default(123));

    let value = var2.value(Some("123".to_string()));
    assert!(value.is_ok());
    assert_eq!(value.unwrap(), 123);
}

#[test]
fn test_all_integer_types() {
    let mut var_i8: Envar<i8> = Envar::on_demand("TEST_I8", EnvarDef::Unset);
    assert_eq!(var_i8.value(Some("127".to_string())).unwrap(), 127i8);

    let mut var_i16: Envar<i16> = Envar::on_demand("TEST_I16", EnvarDef::Unset);
    assert_eq!(var_i16.value(Some("32767".to_string())).unwrap(), 32767i16);

    let mut var_i32: Envar<i32> = Envar::on_demand("TEST_I32", EnvarDef::Unset);
    assert_eq!(var_i32.value(Some("2147483647".to_string())).unwrap(), 2147483647i32);

    let mut var_i64: Envar<i64> = Envar::on_demand("TEST_I64", EnvarDef::Unset);
    assert_eq!(
        var_i64.value(Some("9223372036854775807".to_string())).unwrap(),
        9223372036854775807i64
    );

    let mut var_isize: Envar<isize> = Envar::on_demand("TEST_ISIZE", EnvarDef::Unset);
    assert_eq!(var_isize.value(Some("1000".to_string())).unwrap(), 1000isize);

    let mut var_u8: Envar<u8> = Envar::on_demand("TEST_U8", EnvarDef::Unset);
    assert_eq!(var_u8.value(Some("255".to_string())).unwrap(), 255u8);

    let mut var_u16: Envar<u16> = Envar::on_demand("TEST_U16", EnvarDef::Unset);
    assert_eq!(var_u16.value(Some("65535".to_string())).unwrap(), 65535u16);

    let mut var_u32: Envar<u32> = Envar::on_demand("TEST_U32", EnvarDef::Unset);
    assert_eq!(var_u32.value(Some("4294967295".to_string())).unwrap(), 4294967295u32);

    let mut var_u64: Envar<u64> = Envar::on_demand("TEST_U64", EnvarDef::Unset);
    assert_eq!(
        var_u64.value(Some("18446744073709551615".to_string())).unwrap(),
        18446744073709551615u64
    );

    let mut var_usize: Envar<usize> = Envar::on_demand("TEST_USIZE", EnvarDef::Unset);
    assert_eq!(var_usize.value(Some("1000".to_string())).unwrap(), 1000usize);
}

#[test]
fn test_string_type() {
    let mut var_string: Envar<String> = Envar::on_demand("TEST_STRING", EnvarDef::Unset);
    assert_eq!(var_string.value(Some("Hello, World!".to_string())).unwrap(), "Hello, World!");

    assert_eq!(var_string.value(Some("".to_string())).unwrap(), "");

    assert_eq!(
        var_string.value(Some("  spaces around  ".to_string())).unwrap(),
        "  spaces around  "
    );
}

#[test]
fn test_bool_type() {
    let mut var_bool: Envar<bool> = Envar::on_demand("TEST_BOOL", EnvarDef::Unset);

    let true_values = ["true", "1", "yes", "y", "on", "enabled", "TRUE", "YES", "ON"];
    for value in &true_values {
        assert_eq!(
            var_bool.value(Some(value.to_string())).unwrap(),
            true,
            "Failed for value: {}",
            value
        );
    }

    let false_values = ["false", "0", "no", "n", "off", "disabled", "FALSE", "NO", "OFF"];
    for value in &false_values {
        assert_eq!(
            var_bool.value(Some(value.to_string())).unwrap(),
            false,
            "Failed for value: {}",
            value
        );
    }

    assert_eq!(var_bool.value(Some("".to_string())).unwrap(), false);

    assert_eq!(var_bool.value(Some("   ".to_string())).unwrap(), false);

    let result = var_bool.value(Some("invalid".to_string()));
    assert!(result.is_err());
    match result.err().unwrap() {
        EnvarError::ParseError { typename, .. } => {
            assert_eq!(typename, "bool");
        }
        _ => panic!("Expected ParseError"),
    }
}

#[test]
fn test_parse_errors() {
    let mut var_int: Envar<i32> = Envar::on_demand("TEST_PARSE_ERROR", EnvarDef::Unset);
    let result = var_int.value(Some("not_a_number".to_string()));
    assert!(result.is_err());
    match result.err().unwrap() {
        EnvarError::ParseError { varname, typename, .. } => {
            assert_eq!(varname, "TEST_PARSE_ERROR");
            assert_eq!(typename, "i32");
        }
        _ => panic!("Expected ParseError"),
    }

    let mut var_u8: Envar<u8> = Envar::on_demand("TEST_PARSE_ERROR", EnvarDef::Unset);
    let result = var_u8.value(Some("999".to_string()));
    assert!(result.is_err());
}

#[test]
fn test_envar_option() {
    let mut var_option: Envar<Option<i32>> =
        Envar::on_startup("TEST_OPTION1", EnvarDef::Default(Some(42)));
    assert_eq!(var_option.value(Some("".to_string())).unwrap(), Some(42));

    let mut var_option2: Envar<Option<i32>> =
        Envar::on_demand("TEST_OPTION2", EnvarDef::Default(Some(42)));
    assert_eq!(var_option2.value(None).unwrap(), Some(42));
}

#[test]
fn test_int_sign_and_leading_zeros() {
    let mut var: Envar<i32> = Envar::on_demand("TEST_INT_FORMS", EnvarDef::Unset);
    assert_eq!(var.value(Some("+123".to_string())).unwrap(), 123);
    assert_eq!(var.value(Some("-123".to_string())).unwrap(), -123);
    assert_eq!(var.value(Some("00042".to_string())).unwrap(), 42);
    assert_eq!(var.value(Some("-2147483648".to_string())).unwrap(), i32::MIN);
    assert!(var.value(Some("2147483648".to_string())).is_err());
    assert!(var.value(Some(" 1".to_string())).is_err());
    assert!(var.value(Some("".to_string())).is_err());
    assert!(var.value(Some("+".to_string())).is_err());

    let mut var_u8: Envar<u8> = Envar::on_demand("TEST_UNSIGNED_FORMS", EnvarDef::Unset);
    assert_eq!(var_u8.value(Some("+7".to_string())).unwrap(), 7u8);
    assert!(var_u8.value(Some("-0".to_string())).is_err());
}

#[test]
fn test_parse_error_reasons() {
    let reason_of = |raw: &str| -> String {
        let mut var: Envar<u8> = Envar::on_demand("TEST_REASONS", EnvarDef::Unset);
        match var.value(Some(raw.to_string())) {
            Err(EnvarError::ParseError { mut reason, .. }) => reason.as_str().to_string(),
            other => panic!("expected a ParseError, got {:?}", other),
        }
    };
    assert_eq!(reason_of(""), "cannot parse integer from empty string");
    assert_eq!(reason_of("12x"), "invalid digit found in string");
    assert_eq!(reason_of("999"), "number too large to fit in target type");

    let mut var_i8: Envar<i8> = Envar::on_demand("TEST_REASONS_SIGNED", EnvarDef::Unset);
    match var_i8.value(Some("-999".to_string())) {
        Err(EnvarError::ParseError { mut reason, .. }) => {
            assert_eq!(reason.as_str(), "number too small to fit in target type");
        }
        other => panic!("expected a ParseError, got {:?}", other),
    }

    let mut var_bool: Envar<bool> = Envar::on_demand("TEST_REASONS_BOOL", EnvarDef::Unset);
    match var_bool.value(Some("  maybe  ".to_string())) {
        Err(EnvarError::ParseError { value, mut reason, .. }) => {
            assert_eq!(value, "maybe");
            assert_eq!(reason.as_str(), "maybe");
        }
        other => panic!("expected a ParseError, got {:?}", other),
    }
}

#[test]
fn test_option_non_empty_behaves_like_element() {
    let mut var: Envar<Option<i32>> = Envar::on_demand("TEST_OPTION_FULL", EnvarDef::Unset);
    assert_eq!(var.value(Some("42".to_string())).unwrap(), Some(42));
    assert_eq!(var.value(Some("  7  ".to_string())).unwrap(), Some(7));
    let result = var.value(Some("oops".to_string()));
    match result.err().unwrap() {
        EnvarError::ParseError { typename, value, .. } => {
            assert_eq!(typename, "i32");
            assert_eq!(value, "oops");
        }
        _ => panic!("Expected ParseError"),
    }

    let mut unset: Envar<Option<i32>> = Envar::on_demand("TEST_OPTION_UNSET", EnvarDef::Unset);
    let result = unset.value(Some("   ".to_string()));
    assert!(matches!(result.err().unwrap(), EnvarError::NotSet(n) if n == "TEST_OPTION_UNSET"));
}
