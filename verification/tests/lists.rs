use typed_env::CommaConfig;
use typed_env::Envar;
use typed_env::EnvarDef;
use typed_env::EnvarError;
use typed_env::ListEnvar;
use typed_env::NoFilterConfig;
use typed_env::SemicolonConfig;

#[test]
fn test_envar_list_basic() {
    let mut var_list: Envar<ListEnvar<i32, CommaConfig>> =
        Envar::on_demand("TEST_LIST", EnvarDef::Unset);

    let result = var_list.value(Some("1,2,3,4,5".to_string())).unwrap();
    assert_eq!(result.len(), 5);
    assert_eq!(*result.get(0), 1);
    assert_eq!(*result.get(1), 2);
    assert_eq!(*result.get(2), 3);
    assert_eq!(*result.get(3), 4);
    assert_eq!(*result.get(4), 5);
}

#[test]
fn test_envar_list_string() {
    let mut var_list: Envar<ListEnvar<String, CommaConfig>> =
        Envar::on_demand("TEST_LIST_STRING", EnvarDef::Unset);

    let result = var_list.value(Some("hello,world,test".to_string())).unwrap();
    assert_eq!(result.len(), 3);
    assert_eq!(result.get(0).as_str(), "hello");
    assert_eq!(result.get(1).as_str(), "world");
    assert_eq!(result.get(2).as_str(), "test");
}

#[test]
fn test_envar_list_filtering() {
    // With filtering enabled.
    let mut var_list_filter: Envar<ListEnvar<String, CommaConfig>> =
        Envar::on_demand("TEST_LIST_FILTER", EnvarDef::Unset);

    let result = var_list_filter.value(Some("hello,,world,  ,test".to_string())).unwrap();
    assert_eq!(result.len(), 3); // Empty strings and whitespace-only filtered out
    assert_eq!(result.get(0).as_str(), "hello");
    assert_eq!(result.get(1).as_str(), "world");
    assert_eq!(result.get(2).as_str(), "test");

    // With filtering disabled.
    let mut var_list_no_filter: Envar<ListEnvar<String, NoFilterConfig>> =
        Envar::on_demand("TEST_LIST_NO_FILTER", EnvarDef::Unset);

    let result = var_list_no_filter.value(Some("hello,,world,  ,test".to_string())).unwrap();
    assert_eq!(result.len(), 5); // All items kept including empty and whitespace
    assert_eq!(result.get(0).as_str(), "hello");
    assert_eq!(result.get(1).as_str(), "");
    assert_eq!(result.get(2).as_str(), "world");
    assert_eq!(result.get(3).as_str(), ""); // Whitespace trims away during parsing
    assert_eq!(result.get(4).as_str(), "test");
}

#[test]
fn test_envar_list_different_separator() {
    let mut var_list: Envar<ListEnvar<i32, SemicolonConfig>> =
        Envar::on_demand("TEST_LIST_SEMICOLON", EnvarDef::Unset);

    let result = var_list.value(Some("10;20;30".to_string())).unwrap();
    assert_eq!(result.len(), 3);
    assert_eq!(*result.get(0), 10);
    assert_eq!(*result.get(1), 20);
    assert_eq!(*result.get(2), 30);
}

#[test]
fn test_envar_list_empty() {
    let mut var_list: Envar<ListEnvar<String, CommaConfig>> =
        Envar::on_demand("TEST_LIST_EMPTY", EnvarDef::Unset);

    let result = var_list.value(Some("".to_string())).unwrap();
    assert_eq!(result.len(), 0);
}

#[test]
fn test_envar_list_parse_error() {
    let mut var_list: Envar<ListEnvar<i32, CommaConfig>> =
        Envar::on_demand("TEST_LIST_PARSE_ERROR", EnvarDef::Unset);

    let result = var_list.value(Some("1,2,not_a_number,4".to_string()));
    assert!(result.is_err());
    match result.err().unwrap() {
        EnvarError::ParseError { varname, typename, .. } => {
            assert_eq!(varname, "TEST_LIST_PARSE_ERROR");
            assert_eq!(typename, "i32");
        }
        _ => panic!("Expected ParseError"),
    }
}

#[test]
fn test_envar_list_display() {
    let mut var_list: Envar<ListEnvar<String, CommaConfig>> =
        Envar::on_demand("TEST_LIST_DISPLAY", EnvarDef::Unset);

    let result = var_list.value(Some("hello,world,test".to_string())).unwrap();
    assert_eq!(result.to_display_string(), "hello,world,test");
}

#[test]
fn test_envar_list_debug() {
    let mut var_list: Envar<ListEnvar<i32, CommaConfig>> =
        Envar::on_demand("TEST_LIST_DEBUG", EnvarDef::Unset);

    let result = var_list.value(Some("1,2,3".to_string())).unwrap();
    let debug_str = format!("{:?}", result);
    assert!(debug_str.contains("ListEnvar"));
    assert!(debug_str.contains("[1, 2, 3]"));
}

#[test]
fn test_list_filters_on_letters() {
    let mut filtered: Envar<ListEnvar<String, CommaConfig>> =
        Envar::on_demand("TEST_LIST_LETTERS", EnvarDef::Unset);
    let result = filtered.value(Some("a,,b,  ,c".to_string())).unwrap();
    assert_eq!(result.len(), 3);
    assert_eq!(result.get(0).as_str(), "a");
    assert_eq!(result.get(1).as_str(), "b");
    assert_eq!(result.get(2).as_str(), "c");

    let mut unfiltered: Envar<ListEnvar<String, NoFilterConfig>> =
        Envar::on_demand("TEST_LIST_LETTERS_RAW", EnvarDef::Unset);
    let result = unfiltered.value(Some("a,,b,  ,c".to_string())).unwrap();
    assert_eq!(result.len(), 5);
    assert_eq!(result.get(0).as_str(), "a");
    assert_eq!(result.get(1).as_str(), "");
    assert_eq!(result.get(2).as_str(), "b");
    assert_eq!(result.get(3).as_str(), "");
    assert_eq!(result.get(4).as_str(), "c");
}

#[test]
fn test_list_elements_are_trimmed() {
    let mut var_list: Envar<ListEnvar<i32, CommaConfig>> =
        Envar::on_demand("TEST_LIST_TRIM", EnvarDef::Unset);
    let result = var_list.value(Some(" 1 , 2 ,3 ".to_string())).unwrap();
    assert_eq!(result.len(), 3);
    assert_eq!(*result.get(0), 1);
    assert_eq!(*result.get(1), 2);
    assert_eq!(*result.get(2), 3);
}

#[test]
fn test_list_clone_shares_contents() {
    let mut var_list: Envar<ListEnvar<String, CommaConfig>> =
        Envar::on_demand("TEST_LIST_CLONE", EnvarDef::Unset);
    let result = var_list.value(Some("x,y".to_string())).unwrap();
    let copy = result.clone();
    assert_eq!(copy.len(), 2);
    assert_eq!(copy.get(0).as_str(), "x");
    assert_eq!(copy.get(1).as_str(), "y");
}
