//! Tests of the variable table: intrinsic seeding, the literal-escape
//! wrapping convention, the active-variable cursor and formatting.

use dss_parser::ParserVar;

#[test]
fn test_intrinsic_variables() {
    let mut vars = ParserVar::new();
    assert_eq!(vars.num_variables(), 7);
    assert!(vars.lookup("@lastfile"));
    assert_eq!(vars.get_value(), "null");
    assert!(vars.lookup("@result"));
    assert_eq!(vars.get_value(), "null");
    assert!(vars.lookup("@lastexportfile"));
    assert!(vars.lookup("@lastshowfile"));
    assert!(vars.lookup("@lastplotfile"));
    assert!(vars.lookup("@lastredirectfile"));
    assert!(vars.lookup("@lastcompilefile"));
}

#[test]
fn test_variable_wrap_round_trip() {
    let mut vars = ParserVar::new();

    // A value holding the sigil is stored wrapped in braces.
    assert!(vars.add("@v", "@other"));
    assert!(vars.lookup("@v"));
    assert_eq!(vars.get_value(), "{@other}");

    // A plain value is stored verbatim.
    assert!(vars.add("@v", "42"));
    assert!(vars.lookup("@v"));
    assert_eq!(vars.get_value(), "42");
}

#[test]
fn test_add_replaces_and_counts() {
    let mut vars = ParserVar::new();
    assert!(vars.add("@a", "1"));
    assert_eq!(vars.num_variables(), 8);
    assert!(vars.add("@a", "2"));
    assert_eq!(vars.num_variables(), 8);
    assert!(vars.lookup("@a"));
    assert_eq!(vars.get_value(), "2");
}

#[test]
fn test_lookup_miss_clears_cursor() {
    let mut vars = ParserVar::new();
    assert!(vars.lookup("@result"));
    assert_eq!(vars.get_value(), "null");
    assert!(!vars.lookup("@missing"));
    // With no active variable, reads yield the empty string and writes do
    // nothing.
    assert_eq!(vars.get_value(), "");
    vars.set_value("ignored");
    assert!(vars.lookup("@result"));
    assert_eq!(vars.get_value(), "null");
}

#[test]
fn test_set_value_writes_active() {
    let mut vars = ParserVar::new();
    assert!(vars.lookup("@result"));
    vars.set_value("12.5");
    assert_eq!(vars.get_value(), "12.5");
    // set_value writes verbatim, without the wrapping that add applies.
    vars.set_value("@raw");
    assert_eq!(vars.get_value(), "@raw");
}

#[test]
fn test_get_var_string() {
    let mut vars = ParserVar::new();
    assert_eq!(vars.get_var_string("@lastfile"), "@lastfile. null");
    assert!(vars.add("@a", "12"));
    assert_eq!(vars.get_var_string("@a"), "@a. 12");
    assert!(vars.add("@b", ""));
    assert_eq!(vars.get_var_string("@b"), "@b. null");
    assert_eq!(vars.get_var_string("@missing"), "Variable not found");
}

#[test]
fn test_parser_error_message() {
    let e = dss_parser::ParserError::new("Integer number conversion error");
    assert_eq!(e.message(), "Integer number conversion error");
}
