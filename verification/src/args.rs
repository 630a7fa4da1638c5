//! Command line arguments.

use lexopt::{Arg, Parser};
use vstd::prelude::*;

verus! {

/// The arguments that the program understands.
#[derive(Clone, Copy, Debug, PartialEq, Eq)]
pub struct Args {
    /// `--json`: standard output holds JSON lines and nothing else.
    pub json: bool,
    /// `-h` or `--help`: print the usage and leave.
    pub help: bool,
}

impl Default for Args {
    fn default() -> (args: Self)
        ensures
            args == (Args { json: false, help: false }),
    {
        Args { json: false, help: false }
    }
}

/// A piece of the command line.
#[derive(Debug, PartialEq, Eq)]
pub enum Token {
    /// A short option such as `-h`.
    Short(char),
    /// A long option such as `--json`, without the dashes.
    Long(String),
    /// Anything that is no option.
    Value(String),
}

/// What a token holds. `Refused` stands for a value that was given to an option without
/// being asked for; the option is named with its dashes.
pub enum TokenView {
    Short(char),
    Long(Seq<char>),
    Value(Seq<char>),
    Refused { option: Seq<char>, value: Seq<char> },
}

impl View for Token {
    type V = TokenView;

    open spec fn view(&self) -> TokenView {
        match self {
            Token::Short(c) => TokenView::Short(*c),
            Token::Long(name) => TokenView::Long(name@),
            Token::Value(text) => TokenView::Value(text@),
        }
    }
}

/// Why the command line was not understood.
#[derive(Debug, PartialEq, Eq)]
pub enum ArgsError {
    /// An option or argument that the program does not have.
    Unexpected(Token),
    /// A value for an option that takes none. The option is named with its dashes.
    UnexpectedValue { option: String, value: String },
}

impl View for ArgsError {
    type V = TokenView;

    open spec fn view(&self) -> TokenView {
        match self {
            ArgsError::Unexpected(token) => token@,
            ArgsError::UnexpectedValue { option, value } => TokenView::Refused {
                option: option@,
                value: value@,
            },
        }
    }
}

/// A command line that is being taken apart.
#[verifier::external_type_specification]
#[verifier::external_body]
pub struct ExParser(Parser);

/// Any error of `lexopt`.
#[verifier::external_type_specification]
#[verifier::external_body]
pub struct ExLexError(lexopt::Error);

/// What can come in place of a token.
pub(crate) enum Malformed {
    /// A value for an option that was not asked for one.
    UnexpectedValue { option: String, value: String },
    /// Any other error.
    Other(lexopt::Error),
}

/// The texts of the arguments.
pub open spec fn texts(args: Seq<String>) -> Seq<Seq<char>> {
    Seq::new(args.len(), |i: int| args[i]@)
}

/// The tokens of the letters of an argument such as `-abc`: one for each, up to an `=` after
/// the first, from which on the rest is a value for the letter before it.
pub open spec fn letter_tokens(letters: Seq<char>, before: Option<char>) -> Seq<TokenView>
    decreases letters.len(),
{
    if letters.len() == 0 {
        Seq::empty()
    } else if letters[0] == '=' && before is Some {
        seq![TokenView::Refused { option: seq!['-', before->0], value: letters.skip(1) }]
    } else {
        seq![TokenView::Short(letters[0])] + letter_tokens(letters.skip(1), Some(letters[0]))
    }
}

/// Whether the argument is `--`, after which nothing is an option.
pub open spec fn ends_options(arg: Seq<char>) -> bool {
    arg.len() == 2 && arg[0] == '-' && arg[1] == '-'
}

/// Whether the argument is a long option.
pub open spec fn is_long(arg: Seq<char>) -> bool {
    arg.len() > 2 && arg[0] == '-' && arg[1] == '-'
}

/// The tokens of one argument: `--name` is a long option, with a value that was not asked for
/// where it goes on with `=`; a dash and letters are short options; anything else is itself.
pub open spec fn argument_tokens(arg: Seq<char>) -> Seq<TokenView> {
    if is_long(arg) {
        if arg.contains('=') {
            let sign = arg.index_of_first('=')->0;
            seq![
                TokenView::Long(arg.subrange(2, sign)),
                TokenView::Refused { option: arg.take(sign), value: arg.skip(sign + 1) },
            ]
        } else {
            seq![TokenView::Long(arg.skip(2))]
        }
    } else if arg.len() >= 2 && arg[0] == '-' {
        letter_tokens(arg.skip(1), None)
    } else {
        seq![TokenView::Value(arg)]
    }
}

/// The tokens of the arguments after the name of the program.
pub open spec fn lexed(args: Seq<Seq<char>>) -> Seq<TokenView>
    decreases args.len(),
{
    if args.len() == 0 {
        Seq::empty()
    } else if ends_options(args[0]) {
        args.skip(1).map_values(|arg: Seq<char>| TokenView::Value(arg))
    } else {
        argument_tokens(args[0]) + lexed(args.skip(1))
    }
}

/// The tokens of a command line, whose first argument is the name of the program.
pub open spec fn tokens_of(args: Seq<Seq<char>>) -> Seq<TokenView> {
    if args.len() == 0 {
        Seq::empty()
    } else {
        lexed(args.skip(1))
    }
}

/// The tokens that are still to be read.
pub uninterp spec fn remaining_tokens(parser: Parser) -> Seq<TokenView>;

/// `lexopt::Parser::from_iter`: the parser has all tokens of the command line before it.
#[verifier::external_body]
fn start_parser(args: Vec<String>) -> (parser: Parser)
    ensures
        remaining_tokens(parser) == tokens_of(texts(args@)),
{
    Parser::from_iter(args)
}

/// `lexopt::Parser::next`: takes the next token, or finds that none is left. A value that was
/// not asked for gives an error that names the option and the value; no other error comes.
#[verifier::external_body]
fn next_token(parser: &mut Parser) -> (token: Result<Option<Token>, Malformed>)
    ensures
        match token {
            Ok(None) => remaining_tokens(*old(parser)).len() == 0,
            Ok(Some(t)) => remaining_tokens(*old(parser)).len() > 0 && remaining_tokens(
                *old(parser),
            )[0] == t@,
            Err(Malformed::UnexpectedValue { option, value }) => remaining_tokens(
                *old(parser),
            ).len() > 0 && remaining_tokens(*old(parser))[0] == (TokenView::Refused {
                option: option@,
                value: value@,
            }),
            Err(Malformed::Other(_)) => false,
        },
        remaining_tokens(*final(parser)) == (if remaining_tokens(*old(parser)).len() > 0 {
            remaining_tokens(*old(parser)).skip(1)
        } else {
            remaining_tokens(*old(parser))
        }),
{
    match parser.next() {
        Ok(Some(Arg::Short(c))) => Ok(Some(Token::Short(c))),
        Ok(Some(Arg::Long(name))) => Ok(Some(Token::Long(name.to_string()))),
        Ok(Some(Arg::Value(text))) => Ok(Some(Token::Value(text.to_string_lossy().into_owned()))),
        Ok(None) => Ok(None),
        Err(lexopt::Error::UnexpectedValue { option, value }) => {
            let value = value.to_string_lossy().into_owned();
            Err(Malformed::UnexpectedValue { option, value })
        }
        Err(error) => Err(Malformed::Other(error)),
    }
}

/// The token that asks for JSON.
pub open spec fn asks_json(token: TokenView) -> bool {
    token == TokenView::Long("json"@)
}

/// The tokens that ask for the usage.
pub open spec fn asks_help(token: TokenView) -> bool {
    token == TokenView::Short('h') || token == TokenView::Long("help"@)
}

/// The tokens that the program has.
pub open spec fn understood(token: TokenView) -> bool {
    asks_json(token) || asks_help(token)
}

/// Whether one of the tokens asks for JSON.
pub open spec fn any_json(tokens: Seq<TokenView>) -> bool {
    exists|i: int| 0 <= i < tokens.len() && asks_json(#[trigger] tokens[i])
}

/// Whether one of the tokens asks for the usage.
pub open spec fn any_help(tokens: Seq<TokenView>) -> bool {
    exists|i: int| 0 <= i < tokens.len() && asks_help(#[trigger] tokens[i])
}

/// Whether the program has all of the tokens.
pub open spec fn all_understood(tokens: Seq<TokenView>) -> bool {
    forall|i: int| 0 <= i < tokens.len() ==> understood(#[trigger] tokens[i])
}

/// Whether this is the first token that the program does not have.
pub open spec fn first_not_understood(tokens: Seq<TokenView>, token: TokenView) -> bool {
    exists|i: int|
        0 <= i < tokens.len() && (#[trigger] tokens[i]) == token && !understood(token)
            && all_understood(tokens.take(i))
}

impl Args {
    /// Takes one token into account, or hands it back where the program does not have it.
    pub fn accept(self, token: Token) -> (args: Result<Args, Token>)
        ensures
            args is Ok <==> understood(token@),
            args matches Ok(a) ==> a == (Args {
                json: self.json || asks_json(token@),
                help: self.help || asks_help(token@),
            }),
            args matches Err(t) ==> t == token,
    {
        proof {
            reveal_strlit("json");
            reveal_strlit("help");
            assert("json"@[0] != "help"@[0]);
        }
        let json: bool = match &token {
            Token::Long(name) => *name == "json".to_owned(),
            _ => false,
        };
        let help: bool = match &token {
            Token::Long(name) => *name == "help".to_owned(),
            Token::Short(c) => *c == 'h',
            Token::Value(_) => false,
        };
        if json {
            Ok(Args { json: true, help: self.help })
        } else if help {
            Ok(Args { json: self.json, help: true })
        } else {
            Err(token)
        }
    }
}

/// Reads the command line, whose first argument is the name of the program. Anything that
/// the program does not have is an error.
pub fn parse_args(args: Vec<String>) -> (parsed: Result<Args, ArgsError>)
    ensures
        parsed is Ok <==> all_understood(tokens_of(texts(args@))),
        parsed matches Ok(a) ==> a == (Args {
            json: any_json(tokens_of(texts(args@))),
            help: any_help(tokens_of(texts(args@))),
        }),
        parsed matches Err(e) ==> first_not_understood(tokens_of(texts(args@)), e@),
{
    let ghost tokens = tokens_of(texts(args@));
    let mut parser: Parser = start_parser(args);
    let mut parsed: Args = Args::default();
    let ghost mut n: int = 0;
    assert(tokens.skip(0) =~= tokens);
    loop
        invariant
            tokens == tokens_of(texts(args@)),
            0 <= n <= tokens.len(),
            remaining_tokens(parser) == tokens.skip(n),
            all_understood(tokens.take(n)),
            parsed.json == any_json(tokens.take(n)),
            parsed.help == any_help(tokens.take(n)),
        decreases tokens.len() - n,
    {
        match next_token(&mut parser) {
            Ok(Some(token)) => {
                let ghost view = token@;
                assert(tokens[n] == view);
                parsed = match parsed.accept(token) {
                    Ok(parsed) => parsed,
                    Err(token) => {
                        return Err(ArgsError::Unexpected(token));
                    },
                };
                proof {
                    assert(tokens.skip(n).skip(1) =~= tokens.skip(n + 1));
                    let shorter = tokens.take(n);
                    let longer = tokens.take(n + 1);
                    assert(longer =~= shorter.push(view));
                    assert(longer[n] == view);
                    assert forall|i: int| 0 <= i < longer.len() implies understood(
                        #[trigger] longer[i],
                    ) by {
                        if i < n {
                            assert(longer[i] == shorter[i]);
                        }
                    }
                    if any_json(shorter) {
                        let i = choose|i: int|
                            0 <= i < shorter.len() && asks_json(#[trigger] shorter[i]);
                        assert(asks_json(longer[i]));
                    }
                    if any_help(shorter) {
                        let i = choose|i: int|
                            0 <= i < shorter.len() && asks_help(#[trigger] shorter[i]);
                        assert(asks_help(longer[i]));
                    }
                    if any_json(longer) && !asks_json(view) {
                        let i = choose|i: int|
                            0 <= i < longer.len() && asks_json(#[trigger] longer[i]);
                        assert(asks_json(shorter[i]));
                    }
                    if any_help(longer) && !asks_help(view) {
                        let i = choose|i: int|
                            0 <= i < longer.len() && asks_help(#[trigger] longer[i]);
                        assert(asks_help(shorter[i]));
                    }
                    n = n + 1;
                }
            },
            Ok(None) => {
                assert(tokens.take(n) =~= tokens);
                return Ok(parsed);
            },
            Err(Malformed::UnexpectedValue { option, value }) => {
                assert(tokens[n] == (TokenView::Refused { option: option@, value: value@ }));
                return Err(ArgsError::UnexpectedValue { option, value });
            },
            Err(Malformed::Other(_)) => {
                vstd::pervasive::unreached::<()>();
            },
        }
    }
}

} // verus!
