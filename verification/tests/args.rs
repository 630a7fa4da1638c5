use umasim::args::{parse_args, Args, ArgsError, Token};

fn parse(args: &[&str]) -> Result<Args, ArgsError> {
    parse_args(args.iter().map(|arg| arg.to_string()).collect())
}

fn unexpected(args: &[&str]) -> Option<Token> {
    match parse(args) {
        Err(ArgsError::Unexpected(token)) => Some(token),
        _ => None,
    }
}

#[test]
fn test_parse_args_default() {
    let args = parse(&["umaai"]).unwrap();
    assert!(!args.json);
    assert!(!args.help);
}

#[test]
fn test_parse_args_json() {
    let args = parse(&["umaai", "--json"]).unwrap();
    assert!(args.json);
    assert!(!args.help);
}

#[test]
fn test_parse_args_unknown_rejects() {
    assert!(parse(&["umaai", "--bogus"]).is_err());
}

#[test]
fn options_may_come_in_any_order_and_again() {
    let help = Args { json: false, help: true };
    let both = Args { json: true, help: true };
    assert_eq!(parse(&[]).unwrap(), Args::default());
    assert_eq!(parse(&["--json"]).unwrap(), Args::default());
    assert_eq!(parse(&["umaai", "-h"]).unwrap(), help);
    assert_eq!(parse(&["umaai", "--help"]).unwrap(), help);
    assert_eq!(parse(&["umaai", "-hh"]).unwrap(), help);
    assert_eq!(parse(&["umaai", "-h", "--json", "--json"]).unwrap(), both);
    assert_eq!(parse(&["umaai", "--json", "-h", "--"]).unwrap(), both);
}

#[test]
fn the_first_piece_that_is_not_known_is_named() {
    assert_eq!(
        unexpected(&["umaai", "--json", "--bogus", "-x"]),
        Some(Token::Long("bogus".to_string()))
    );
    assert_eq!(unexpected(&["umaai", "-x"]), Some(Token::Short('x')));
    assert_eq!(unexpected(&["umaai", "-hx"]), Some(Token::Short('x')));
    assert_eq!(unexpected(&["umaai", "-早"]), Some(Token::Short('早')));
    assert_eq!(unexpected(&["umaai", "-="]), Some(Token::Short('=')));
    assert_eq!(unexpected(&["umaai", "file"]), Some(Token::Value("file".to_string())));
    assert_eq!(unexpected(&["umaai", ""]), Some(Token::Value(String::new())));
    assert_eq!(unexpected(&["umaai", "-"]), Some(Token::Value("-".to_string())));
    assert_eq!(unexpected(&["umaai", "--", "--json"]), Some(Token::Value("--json".to_string())));
    assert_eq!(unexpected(&["umaai", "---json"]), Some(Token::Long("-json".to_string())));
}

#[test]
fn a_value_for_an_option_is_refused() {
    let refused = |args: &[&str]| match parse(args) {
        Err(ArgsError::UnexpectedValue { option, value }) => Some((option, value)),
        _ => None,
    };
    let named = |option: &str, value: &str| Some((option.to_string(), value.to_string()));
    assert_eq!(refused(&["umaai", "--json=1"]), named("--json", "1"));
    assert_eq!(refused(&["umaai", "--help=a=早"]), named("--help", "a=早"));
    assert_eq!(refused(&["umaai", "--json="]), named("--json", ""));
    assert_eq!(refused(&["umaai", "-h=1"]), named("-h", "1"));
    assert_eq!(refused(&["umaai", "-hh=", "--bogus"]), named("-h", ""));
    assert_eq!(unexpected(&["umaai", "--=x"]), Some(Token::Long(String::new())));
    assert_eq!(unexpected(&["umaai", "-x=1"]), Some(Token::Short('x')));
}

#[test]
fn each_token_is_taken_for_itself() {
    let none = Args::default();
    assert_eq!(
        none.accept(Token::Long("json".to_string())),
        Ok(Args { json: true, help: false })
    );
    assert_eq!(none.accept(Token::Short('h')), Ok(Args { json: false, help: true }));
    assert_eq!(
        none.accept(Token::Value("json".to_string())),
        Err(Token::Value("json".to_string()))
    );
    assert_eq!(none.accept(Token::Short('j')), Err(Token::Short('j')));
}
