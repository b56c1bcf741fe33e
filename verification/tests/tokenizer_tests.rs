//! Tests of the tokenizer: parameter extraction, quoting, comments and
//! variable substitution.

use dss_parser::DSSParser;
use dss_parser::ParserVar;

#[test]
fn test_words_without_equals() {
    // With no `=` every call returns an empty name and the token buffer
    // holds the successive whitespace/comma-delimited words.
    let mut p = DSSParser::new();
    p.set_cmd_string("alpha beta,gamma\tdelta");
    assert_eq!(p.next_param(), "");
    assert_eq!(p.make_string(), "alpha");
    assert_eq!(p.next_param(), "");
    assert_eq!(p.make_string(), "beta");
    assert_eq!(p.next_param(), "");
    assert_eq!(p.make_string(), "gamma");
    assert_eq!(p.next_param(), "");
    assert_eq!(p.make_string(), "delta");
    assert_eq!(p.next_param(), "");
    assert_eq!(p.make_string(), "");
}

#[test]
fn test_name_value_pair() {
    let mut p = DSSParser::new();
    p.set_cmd_string("name=value");
    assert_eq!(p.next_param(), "name");
    assert_eq!(p.make_string(), "value");
}

#[test]
fn test_basic_parsing() {
    let mut p = DSSParser::new();
    p.set_cmd_string("param1=value1 param2=value2");
    assert_eq!(p.next_param(), "param1");
    assert_eq!(p.make_string(), "value1");
    assert_eq!(p.next_param(), "param2");
    assert_eq!(p.make_string(), "value2");
}

#[test]
fn test_quoted_token_consumes_delimiters() {
    // A quoted span runs verbatim to its positionally paired close
    // character, embedded separators, whitespace and comment markers
    // included.
    let mut p = DSSParser::new();
    p.set_cmd_string("(a b,c!d) rest");
    assert_eq!(p.next_param(), "");
    assert_eq!(p.make_string(), "a b,c!d");
    assert!(p.is_quoted());
    // The quote branch stops right after the close character, so the
    // following space yields one empty token before the next word.
    assert_eq!(p.next_param(), "");
    assert_eq!(p.make_string(), "");
    assert_eq!(p.next_param(), "");
    assert_eq!(p.make_string(), "rest");
    assert!(!p.is_quoted());
}

#[test]
fn test_quote_pairing_is_positional() {
    // The default configuration pairs open `"` (ordinal 1) with close `}`
    // (ordinal 1) — the asymmetry is part of the contract.
    let mut p = DSSParser::new();
    p.set_cmd_string("\"abc} def");
    assert_eq!(p.next_param(), "");
    assert_eq!(p.make_string(), "abc");
    assert_eq!(p.next_param(), "");
    assert_eq!(p.make_string(), "");
    assert_eq!(p.next_param(), "");
    assert_eq!(p.make_string(), "def");

    // Square brackets pair with each other.
    let mut p = DSSParser::new();
    p.set_cmd_string("[a b] c");
    assert_eq!(p.next_param(), "");
    assert_eq!(p.make_string(), "a b");
}

#[test]
fn test_unterminated_quote_runs_to_end() {
    let mut p = DSSParser::new();
    p.set_cmd_string("(abc def");
    assert_eq!(p.next_param(), "");
    assert_eq!(p.make_string(), "abc def");
    assert!(p.is_quoted());
    assert_eq!(p.next_param(), "");
    assert_eq!(p.make_string(), "");
}

#[test]
fn test_open_brace_has_no_close() {
    // The default close configuration is one character shorter than the
    // open configuration, so `{` opens a span that runs to the buffer end.
    let mut p = DSSParser::new();
    p.set_cmd_string("{a b c");
    assert_eq!(p.next_param(), "");
    assert_eq!(p.make_string(), "a b c");
    assert!(p.is_quoted());
}

#[test]
fn test_comment_truncates_line() {
    let mut p = DSSParser::new();
    p.set_cmd_string("bus1.1.2 phases=3 ! comment kV=4.16");
    assert_eq!(p.next_param(), "");
    assert_eq!(p.make_string(), "bus1.1.2");
    assert_eq!(p.next_param(), "phases");
    assert_eq!(p.make_string(), "3");
    assert_eq!(p.next_param(), "");
    assert_eq!(p.make_string(), "");
}

#[test]
fn test_double_slash_comment() {
    let mut p = DSSParser::new();
    p.set_cmd_string("a=1 // trailing b=2");
    assert_eq!(p.next_param(), "a");
    assert_eq!(p.make_string(), "1");
    assert_eq!(p.next_param(), "");
    assert_eq!(p.make_string(), "");

    // A bare slash is an ordinary token character.
    let mut p = DSSParser::new();
    p.set_cmd_string("a/b c");
    assert_eq!(p.next_param(), "");
    assert_eq!(p.make_string(), "a/b");
    assert_eq!(p.next_param(), "");
    assert_eq!(p.make_string(), "c");

    // `//` ends the line even in the middle of a token.
    let mut p = DSSParser::new();
    p.set_cmd_string("ab//c");
    assert_eq!(p.next_param(), "");
    assert_eq!(p.make_string(), "ab");
    assert_eq!(p.next_param(), "");
    assert_eq!(p.make_string(), "");
}

#[test]
fn test_configured_quote_chars() {
    let mut p = DSSParser::new();
    p.set_quote_chars("<", ">");
    p.set_cmd_string("<a b> c");
    assert_eq!(p.next_param(), "");
    assert_eq!(p.make_string(), "a b");
    assert!(p.is_quoted());
}

#[test]
fn test_variable_substitution_plain() {
    let mut vars = ParserVar::new();
    vars.add("@myvar", "42");
    let mut p = DSSParser::new();
    p.set_vars(vars);
    p.set_cmd_string("@myvar");
    assert_eq!(p.next_param(), "");
    assert_eq!(p.make_string(), "42");
    assert!(!p.is_quoted());
}

#[test]
fn test_variable_substitution_suffix() {
    let mut vars = ParserVar::new();
    vars.add("@bus", "busname");
    let mut p = DSSParser::new();
    p.set_vars(vars);
    // The suffix from the cut point on is preserved.
    p.set_cmd_string("@bus.1.2");
    assert_eq!(p.next_param(), "");
    assert_eq!(p.make_string(), "busname.1.2");
}

#[test]
fn test_variable_substitution_wrapped() {
    let mut vars = ParserVar::new();
    vars.add("@v", "@other");
    let mut p = DSSParser::new();
    p.set_vars(vars);
    p.set_cmd_string("@v");
    assert_eq!(p.next_param(), "");
    // The wrapped value splices in verbatim, without re-expansion, and the
    // token counts as quoted.
    assert_eq!(p.make_string(), "@other");
    assert!(p.is_quoted());
}

#[test]
fn test_variable_miss_leaves_token() {
    let mut p = DSSParser::new();
    p.set_vars(ParserVar::new());
    p.set_cmd_string("@missing rest");
    assert_eq!(p.next_param(), "");
    assert_eq!(p.make_string(), "@missing");
    assert_eq!(p.next_param(), "");
    assert_eq!(p.make_string(), "rest");
}

#[test]
fn test_variable_as_value() {
    let mut vars = ParserVar::new();
    vars.add("@kv", "4.16");
    let mut p = DSSParser::new();
    p.set_vars(vars);
    p.set_cmd_string("kv=@kv");
    assert_eq!(p.next_param(), "kv");
    assert_eq!(p.make_string(), "4.16");
}

#[test]
fn test_caret_cut_beats_dot() {
    let mut vars = ParserVar::new();
    vars.add("@v", "ten");
    let mut p = DSSParser::new();
    p.set_vars(vars);
    // The name is cut at `^` when one occurs, even after a `.`.
    p.set_cmd_string("@v^2");
    assert_eq!(p.next_param(), "");
    assert_eq!(p.make_string(), "ten^2");
}

#[test]
fn test_exhausted_buffer_yields_empty() {
    let mut p = DSSParser::new();
    p.set_cmd_string("");
    assert_eq!(p.next_param(), "");
    assert_eq!(p.make_string(), "");
    p.set_cmd_string("   ");
    assert_eq!(p.next_param(), "");
    assert_eq!(p.make_string(), "");
}

#[test]
fn test_quoted_value_flag() {
    let mut p = DSSParser::new();
    p.set_cmd_string("expr=(2 3 +) plain=5");
    assert_eq!(p.next_param(), "expr");
    assert_eq!(p.make_string(), "2 3 +");
    assert!(p.is_quoted());
    // The space after the close parenthesis yields one empty token.
    assert_eq!(p.next_param(), "");
    assert_eq!(p.make_string(), "");
    assert_eq!(p.next_param(), "plain");
    assert_eq!(p.make_string(), "5");
    assert!(!p.is_quoted());
}

#[test]
fn test_last_delimiter_and_auto_increment() {
    let mut p = DSSParser::new();
    p.set_cmd_string("a=1 b");
    p.next_param();
    assert_eq!(p.get_last_delimiter(), ' ');
    // With auto-increment set, a value read advances one parameter first.
    p.set_auto_increment(true);
    assert_eq!(p.make_string(), "b");
}

#[test]
fn test_configured_delimiters() {
    let mut p = DSSParser::new();
    p.set_delim_chars(";=");
    p.set_cmd_string("a;b name=v");
    assert_eq!(p.next_param(), "");
    assert_eq!(p.make_string(), "a");
    assert_eq!(p.next_param(), "");
    assert_eq!(p.make_string(), "b");
    assert_eq!(p.next_param(), "name");
    assert_eq!(p.make_string(), "v");
    p.reset_delims();
    p.set_cmd_string("c,d");
    assert_eq!(p.next_param(), "");
    assert_eq!(p.make_string(), "c");
}
