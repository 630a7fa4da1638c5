//! Which command lines are understood.

use crate::args::{
    all_understood, any_help, any_json, argument_tokens, asks_help, asks_json, ends_options,
    first_not_understood, letter_tokens, lexed, parse_args, texts, tokens_of, understood, Args,
    ArgsError, Token, TokenView,
};
use vstd::prelude::*;

verus! {

/// The argument `--json`.
pub open spec fn is_json_option(arg: Seq<char>) -> bool {
    arg == seq!['-', '-', 'j', 's', 'o', 'n']
}

/// The argument `--help`, or a dash and nothing but the letter `h` after it, at least once.
pub open spec fn is_help_option(arg: Seq<char>) -> bool {
    ||| arg == seq!['-', '-', 'h', 'e', 'l', 'p']
    ||| arg.len() >= 2 && arg[0] == '-' && forall|i: int|
        1 <= i < arg.len() ==> #[trigger] arg[i] == 'h'
}

proof fn lemma_names()
    ensures
        "json"@ =~= seq!['j', 's', 'o', 'n'],
        "help"@ =~= seq!['h', 'e', 'l', 'p'],
{
    reveal_strlit("json");
    reveal_strlit("help");
}

proof fn lemma_letter(letters: Seq<char>, before: Option<char>, first: char)
    requires
        letters.len() > 0,
        first == letters[0],
        first != '=' || before is None,
    ensures
        letter_tokens(letters, before) == seq![TokenView::Short(first)] + letter_tokens(
            letters.skip(1),
            Some(first),
        ),
{
}

proof fn lemma_first_letter(letters: Seq<char>, before: Option<char>, first: char)
    requires
        letters.len() > 0,
        first == letters[0],
        first != '=' || before is None,
    ensures
        letter_tokens(letters, before).len() > 0,
        letter_tokens(letters, before)[0] == TokenView::Short(letters[0]),
{
    lemma_letter(letters, before, first);
}

proof fn lemma_bad_letter(letters: Seq<char>, before: Option<char>, first: char)
    requires
        letters.len() > 0,
        first == letters[0],
        first != '=' || before is None,
        first != 'h',
    ensures
        !all_understood(letter_tokens(letters, before)),
{
    lemma_letter(letters, before, first);
    assert(letter_tokens(letters, before)[0] == TokenView::Short(first));
    assert(!understood(letter_tokens(letters, before)[0]));
}

/// The letters of an argument are understood just where all of them are `h`.
proof fn lemma_letters(letters: Seq<char>, before: Option<char>)
    requires
        before is Some ==> before->0 == 'h',
    ensures
        all_understood(letter_tokens(letters, before)) <==> forall|i: int|
            0 <= i < letters.len() ==> #[trigger] letters[i] == 'h',
        !any_json(letter_tokens(letters, before)),
        letters.len() > 0 && all_understood(letter_tokens(letters, before)) ==> any_help(
            letter_tokens(letters, before),
        ),
    decreases letters.len(),
{
    let tokens = letter_tokens(letters, before);
    if letters.len() > 0 {
        if letters[0] == '=' && before is Some {
            assert(!understood(tokens[0]));
        } else if letters[0] == 'h' {
            let rest = letters.skip(1);
            let rest_tokens = letter_tokens(rest, Some('h'));
            lemma_letters(rest, Some('h'));
            assert(tokens[0] == TokenView::Short('h'));
            assert forall|i: int| 0 <= i < rest_tokens.len() implies tokens[i + 1]
                == #[trigger] rest_tokens[i] by {
            }
            assert(asks_help(tokens[0]));
            if all_understood(tokens) {
                assert forall|i: int| 0 <= i < rest_tokens.len() implies understood(
                    #[trigger] rest_tokens[i],
                ) by {
                    assert(understood(tokens[i + 1]));
                }
                assert forall|i: int| 0 <= i < letters.len() implies #[trigger] letters[i]
                    == 'h' by {
                    if i > 0 {
                        assert(rest[i - 1] == letters[i]);
                    }
                }
            }
            if forall|i: int| 0 <= i < letters.len() ==> #[trigger] letters[i] == 'h' {
                assert forall|i: int| 0 <= i < tokens.len() implies understood(
                    #[trigger] tokens[i],
                ) by {
                    if i > 0 {
                        assert(tokens[i] == rest_tokens[i - 1]);
                    }
                }
            }
            assert forall|i: int| 0 <= i < tokens.len() implies !asks_json(
                #[trigger] tokens[i],
            ) by {
                if i > 0 {
                    assert(tokens[i] == rest_tokens[i - 1]);
                }
            }
        } else {
            lemma_bad_letter(letters, before, letters[0]);
            lemma_no_json_letters(letters, before);
        }
    }
}

proof fn lemma_no_json_letters(letters: Seq<char>, before: Option<char>)
    ensures
        !any_json(letter_tokens(letters, before)),
    decreases letters.len(), 1int,
{
    if letters.len() > 0 && !(letters[0] == '=' && before is Some) {
        lemma_no_json_letter(letters, before, letters[0]);
    }
}

proof fn lemma_no_json_letter(letters: Seq<char>, before: Option<char>, first: char)
    requires
        letters.len() > 0,
        first == letters[0],
        first != '=' || before is None,
    ensures
        !any_json(letter_tokens(letters, before)),
    decreases letters.len(), 0int,
{
    let tokens = letter_tokens(letters, before);
    let rest_tokens = letter_tokens(letters.skip(1), Some(first));
    lemma_letter(letters, before, first);
    lemma_no_json_letters(letters.skip(1), Some(first));
    assert forall|i: int| 0 <= i < tokens.len() implies !asks_json(#[trigger] tokens[i]) by {
        if i > 0 {
            assert(tokens[i] == rest_tokens[i - 1]);
        }
    }
}

/// A single argument, other than `--`, is understood just where it is one of the options, and
/// then asks for what its name says.
proof fn lemma_one_argument(arg: Seq<char>)
    requires
        !ends_options(arg),
    ensures
        all_understood(argument_tokens(arg)) <==> is_json_option(arg) || is_help_option(arg),
        all_understood(argument_tokens(arg)) ==> any_json(argument_tokens(arg)) == is_json_option(
            arg,
        ) && any_help(argument_tokens(arg)) == is_help_option(arg),
{
    lemma_names();
    let tokens = argument_tokens(arg);
    if arg.len() > 2 && arg[0] == '-' && arg[1] == '-' {
        assert(!(forall|i: int| 1 <= i < arg.len() ==> #[trigger] arg[i] == 'h')) by {
            assert(arg[1] != 'h');
        }
        if arg.contains('=') {
            assert(!understood(tokens[1]));
            let at = arg.index_of('=');
            assert(arg[at] == '=');
            assert(!is_json_option(arg)) by {
                let option = seq!['-', '-', 'j', 's', 'o', 'n'];
                if arg == option {
                    assert(option[at] == '=');
                }
            }
            assert(!is_help_option(arg)) by {
                let option = seq!['-', '-', 'h', 'e', 'l', 'p'];
                if arg == option {
                    assert(option[at] == '=');
                }
            }
        } else {
            let name = arg.skip(2);
            assert(tokens[0] == TokenView::Long(name));
            assert(seq!['-', '-'] + name =~= arg);
            assert(seq!['-', '-'] + seq!['j', 's', 'o', 'n'] =~= seq![
                '-',
                '-',
                'j',
                's',
                'o',
                'n',
            ]);
            assert(seq!['-', '-'] + seq!['h', 'e', 'l', 'p'] =~= seq![
                '-',
                '-',
                'h',
                'e',
                'l',
                'p',
            ]);
            if is_json_option(arg) {
                assert(name =~= seq!['j', 's', 'o', 'n']);
                assert(asks_json(tokens[0]));
                assert(seq!['j', 's', 'o', 'n'][0] != seq!['h', 'e', 'l', 'p'][0]);
            }
            if arg == seq!['-', '-', 'h', 'e', 'l', 'p'] {
                assert(name =~= seq!['h', 'e', 'l', 'p']);
                assert(asks_help(tokens[0]));
                assert(seq!['j', 's', 'o', 'n'][0] != seq!['h', 'e', 'l', 'p'][0]);
            }
            if all_understood(tokens) {
                assert(understood(tokens[0]));
            }
        }
    } else if arg.len() >= 2 && arg[0] == '-' {
        let letters = arg.skip(1);
        lemma_letters(letters, None);
        assert(letters.len() > 0);
        if forall|i: int| 0 <= i < letters.len() ==> #[trigger] letters[i] == 'h' {
            assert forall|i: int| 1 <= i < arg.len() implies #[trigger] arg[i] == 'h' by {
                assert(letters[i - 1] == 'h');
            }
        }
        if forall|i: int| 1 <= i < arg.len() ==> #[trigger] arg[i] == 'h' {
            assert forall|i: int| 0 <= i < letters.len() implies #[trigger] letters[i] == 'h' by {
                assert(arg[i + 1] == 'h');
            }
        }
        assert(arg.len() == 2 || arg[1] != '-');
        assert(!is_json_option(arg)) by {
            if is_json_option(arg) {
                assert(arg.len() == 6 && arg[1] == '-');
            }
        }
        assert(arg != seq!['-', '-', 'h', 'e', 'l', 'p']) by {
            if arg == seq!['-', '-', 'h', 'e', 'l', 'p'] {
                assert(arg.len() == 6 && arg[1] == '-');
            }
        }
    } else {
        assert(!understood(tokens[0]));
        if is_json_option(arg) {
            assert(arg.len() == 6 && arg[0] == '-');
        }
        if is_help_option(arg) {
            assert(arg[0] == '-');
        }
    }
}

/// Whether the argument at this place is understood: it is one of the options, or `--` with
/// nothing after it.
pub open spec fn is_fine_at(args: Seq<Seq<char>>, i: int) -> bool {
    ||| is_json_option(args[i])
    ||| is_help_option(args[i])
    ||| args[i] == seq!['-', '-'] && i == args.len() - 1
}

proof fn lemma_lexed(args: Seq<Seq<char>>)
    ensures
        all_understood(lexed(args)) <==> forall|i: int| 0 <= i < args.len() ==> is_fine_at(args, i),
        all_understood(lexed(args)) ==> (any_json(lexed(args)) <==> exists|i: int|
            0 <= i < args.len() && is_json_option(#[trigger] args[i])),
        all_understood(lexed(args)) ==> (any_help(lexed(args)) <==> exists|i: int|
            0 <= i < args.len() && is_help_option(#[trigger] args[i])),
    decreases args.len(),
{
    if args.len() == 0 {
    } else if ends_options(args[0]) {
        let tokens = lexed(args);
        let dashes = seq!['-', '-'];
        assert(args[0] =~= dashes);
        assert(!is_json_option(args[0])) by {
            assert(args[0].len() == 2);
        }
        assert(!is_help_option(args[0])) by {
            assert(args[0][1] == '-');
        }
        if args.len() > 1 {
            assert(tokens[0] == TokenView::Value(args[1]));
            assert(!understood(tokens[0]));
            assert(!is_fine_at(args, 0));
        } else {
            assert(tokens.len() == 0);
            assert(is_fine_at(args, 0));
        }
    } else {
        let rest = args.skip(1);
        let first = argument_tokens(args[0]);
        let others = lexed(rest);
        let tokens = lexed(args);
        lemma_one_argument(args[0]);
        lemma_lexed(rest);
        assert(args[0] != seq!['-', '-']);
        assert(is_fine_at(args, 0) == (is_json_option(args[0]) || is_help_option(args[0])));
        assert forall|i: int| 1 <= i < args.len() implies #[trigger] is_fine_at(args, i)
            == is_fine_at(rest, i - 1) by {
        }
        lemma_parts(first, others);
        if all_understood(tokens) {
            assert forall|i: int| 0 <= i < args.len() implies is_fine_at(args, i) by {
                if i > 0 {
                    assert(is_fine_at(rest, i - 1));
                }
            }
            if any_json(others) {
                let i = choose|i: int| 0 <= i < rest.len() && is_json_option(#[trigger] rest[i]);
                assert(is_json_option(args[i + 1]));
            }
            if any_help(others) {
                let i = choose|i: int| 0 <= i < rest.len() && is_help_option(#[trigger] rest[i]);
                assert(is_help_option(args[i + 1]));
            }
            if exists|i: int| 0 <= i < args.len() && is_json_option(#[trigger] args[i]) {
                let i = choose|i: int| 0 <= i < args.len() && is_json_option(#[trigger] args[i]);
                if i > 0 {
                    assert(is_json_option(rest[i - 1]));
                }
            }
            if exists|i: int| 0 <= i < args.len() && is_help_option(#[trigger] args[i]) {
                let i = choose|i: int| 0 <= i < args.len() && is_help_option(#[trigger] args[i]);
                if i > 0 {
                    assert(is_help_option(rest[i - 1]));
                }
            }
        }
        if forall|i: int| 0 <= i < args.len() ==> is_fine_at(args, i) {
            assert(is_fine_at(args, 0));
            assert forall|i: int| 0 <= i < rest.len() implies is_fine_at(rest, i) by {
                assert(is_fine_at(args, i + 1));
            }
        }
    }
}

proof fn lemma_parts(a: Seq<TokenView>, b: Seq<TokenView>)
    ensures
        all_understood(a + b) <==> all_understood(a) && all_understood(b),
        any_json(a + b) <==> any_json(a) || any_json(b),
        any_help(a + b) <==> any_help(a) || any_help(b),
{
    let all = a + b;
    assert forall|i: int| 0 <= i < a.len() implies all[i] == #[trigger] a[i] by {
    }
    assert forall|i: int| 0 <= i < b.len() implies all[a.len() + i] == #[trigger] b[i] by {
    }
    if all_understood(all) {
        assert forall|i: int| 0 <= i < a.len() implies understood(#[trigger] a[i]) by {
            assert(understood(all[i]));
        }
        assert forall|i: int| 0 <= i < b.len() implies understood(#[trigger] b[i]) by {
            assert(understood(all[a.len() + i]));
        }
    }
    if all_understood(a) && all_understood(b) {
        assert forall|i: int| 0 <= i < all.len() implies understood(#[trigger] all[i]) by {
            if i < a.len() {
                assert(understood(a[i]));
            } else {
                assert(understood(b[i - a.len()]));
            }
        }
    }
    if any_json(a) {
        let i = choose|i: int| 0 <= i < a.len() && asks_json(#[trigger] a[i]);
        assert(asks_json(all[i]));
    }
    if any_json(b) {
        let i = choose|i: int| 0 <= i < b.len() && asks_json(#[trigger] b[i]);
        assert(asks_json(all[a.len() + i]));
    }
    if any_help(a) {
        let i = choose|i: int| 0 <= i < a.len() && asks_help(#[trigger] a[i]);
        assert(asks_help(all[i]));
    }
    if any_help(b) {
        let i = choose|i: int| 0 <= i < b.len() && asks_help(#[trigger] b[i]);
        assert(asks_help(all[a.len() + i]));
    }
    if any_json(all) {
        let i = choose|i: int| 0 <= i < all.len() && asks_json(#[trigger] all[i]);
        if i < a.len() {
            assert(asks_json(a[i]));
        } else {
            assert(asks_json(b[i - a.len()]));
        }
    }
    if any_help(all) {
        let i = choose|i: int| 0 <= i < all.len() && asks_help(#[trigger] all[i]);
        if i < a.len() {
            assert(asks_help(a[i]));
        } else {
            assert(asks_help(b[i - a.len()]));
        }
    }
}

/// The arguments after the name of the program.
pub open spec fn given(args: Seq<String>) -> Seq<Seq<char>> {
    Seq::new(
        if args.len() == 0 {
            0
        } else {
            (args.len() - 1) as nat
        },
        |i: int| args[i + 1]@,
    )
}

proof fn lemma_given(args: Seq<String>)
    ensures
        tokens_of(texts(args)) == lexed(given(args)),
{
    if args.len() > 0 {
        assert(texts(args).skip(1) =~= given(args));
    } else {
        assert(given(args) =~= Seq::empty());
    }
}

/// A command line is understood just where every argument after the name of the program is
/// `--json`, `--help`, or a dash with nothing but the letter `h` after it; `--` may stand at
/// the very end. JSON is asked for just where `--json` is among them, and the usage just where
/// one of the others is.
pub proof fn law_which_command_lines_are_understood(
    args: Vec<String>,
    parsed: Result<Args, ArgsError>,
)
    requires
        call_ensures(parse_args, (args,), parsed),
    ensures
        parsed is Ok <==> forall|i: int| 0 <= i < given(args@).len() ==> is_fine_at(given(args@), i),
        parsed matches Ok(asked) ==> {
            &&& asked.json <==> exists|i: int|
                0 <= i < given(args@).len() && is_json_option(#[trigger] given(args@)[i])
            &&& asked.help <==> exists|i: int|
                0 <= i < given(args@).len() && is_help_option(#[trigger] given(args@)[i])
        },
{
    lemma_given(args@);
    lemma_lexed(given(args@));
}

/// The arguments up to one are taken apart one after the other.
proof fn lemma_prefix(args: Seq<Seq<char>>, at: int) -> (before: Seq<TokenView>)
    requires
        0 <= at <= args.len(),
        forall|j: int|
            0 <= j < at ==> is_json_option(#[trigger] args[j]) || is_help_option(args[j]),
    ensures
        all_understood(before),
        lexed(args) == before + lexed(args.skip(at)),
    decreases at,
{
    if at == 0 {
        assert(args.skip(0) =~= args);
        assert(Seq::<TokenView>::empty() + lexed(args) =~= lexed(args));
        Seq::empty()
    } else {
        let rest = args.skip(1);
        assert forall|j: int| 0 <= j < at - 1 implies is_json_option(#[trigger] rest[j])
            || is_help_option(rest[j]) by {
            assert(rest[j] == args[j + 1]);
        }
        assert(is_json_option(args[0]) || is_help_option(args[0]));
        assert(!ends_options(args[0])) by {
            if ends_options(args[0]) {
                assert(args[0].len() == 2 && args[0][1] == '-');
            }
        }
        lemma_one_argument(args[0]);
        let first = argument_tokens(args[0]);
        let others = lemma_prefix(rest, at - 1);
        lemma_parts(first, others);
        assert(rest.skip(at - 1) =~= args.skip(at));
        assert(first + (others + lexed(args.skip(at))) =~= (first + others) + lexed(args.skip(at)));
        first + others
    }
}

/// The first token that is not understood is the one where the understood ones end.
proof fn lemma_first_bad(before: Seq<TokenView>, tokens: Seq<TokenView>, k: int, found: TokenView)
    requires
        all_understood(before),
        0 <= k < tokens.len(),
        forall|i: int| 0 <= i < k ==> understood(#[trigger] tokens[i]),
        !understood(tokens[k]),
        first_not_understood(before + tokens, found),
    ensures
        found == tokens[k],
{
    let all = before + tokens;
    let i = choose|i: int|
        0 <= i < all.len() && (#[trigger] all[i]) == found && !understood(found)
            && all_understood(all.take(i));
    let at = before.len() + k;
    assert(all[at] == tokens[k]);
    if i < at {
        if i < before.len() {
            assert(all[i] == before[i]);
        } else {
            assert(all[i] == tokens[i - before.len()]);
        }
    }
    if at < i {
        assert(all.take(i)[at] == tokens[k]);
    }
}

/// In the letters of an argument the first one that is not `h` is found after those that are.
proof fn lemma_letters_up_to(letters: Seq<char>, before: Option<char>, n: int)
    requires
        before is Some ==> before->0 == 'h',
        0 <= n < letters.len(),
        forall|i: int| 0 <= i < n ==> #[trigger] letters[i] == 'h',
        letters[n] != 'h',
    ensures
        letter_tokens(letters, before).len() > n,
        forall|i: int|
            0 <= i < n ==> #[trigger] letter_tokens(letters, before)[i] == TokenView::Short('h'),
        letter_tokens(letters, before)[n] == if letters[n] == '=' && (n > 0 || before is Some) {
            TokenView::Refused { option: seq!['-', 'h'], value: letters.skip(n + 1) }
        } else {
            TokenView::Short(letters[n])
        },
    decreases n,
{
    let tokens = letter_tokens(letters, before);
    if n == 0 {
        if letters[0] == '=' && before is Some {
            assert(seq!['-', before->0] =~= seq!['-', 'h']);
        } else {
            lemma_first_letter(letters, before, letters[0]);
        }
    } else {
        assert(letters[0] == 'h');
        let rest = letters.skip(1);
        let rest_tokens = letter_tokens(rest, Some('h'));
        lemma_letter(letters, before, 'h');
        assert forall|i: int| 0 <= i < n - 1 implies #[trigger] rest[i] == 'h' by {
            assert(letters[i + 1] == 'h');
        }
        lemma_letters_up_to(rest, Some('h'), n - 1);
        assert(rest.skip(n) =~= letters.skip(n + 1));
        assert(tokens[n] == rest_tokens[n - 1]);
        assert forall|i: int| 0 <= i < n implies #[trigger] tokens[i] == TokenView::Short('h') by {
            if i > 0 {
                assert(tokens[i] == rest_tokens[i - 1]);
            }
        }
    }
}

/// Whether the option has a name that the program has: `json` or `help`.
pub open spec fn is_known_name(name: Seq<char>) -> bool {
    name == seq!['j', 's', 'o', 'n'] || name == seq!['h', 'e', 'l', 'p']
}

/// An error names the first thing in the command line that the program does not have. After
/// nothing but options, that is: an argument that is no option, or whatever stands after `--`,
/// as it stands; a long option of another name, by that name; the value of a long option of a
/// name that the program has, with that option; and of letters after a dash the first that is
/// not `h`, or, where that is `=` after an `h`, the value that follows, with the option `-h`.
pub proof fn law_the_first_bad_argument_is_named(
    args: Vec<String>,
    error: ArgsError,
    at: int,
    place: int,
)
    requires
        call_ensures(parse_args, (args,), Err::<Args, ArgsError>(error)),
        0 <= at < given(args@).len(),
        forall|j: int|
            0 <= j < at ==> is_json_option(#[trigger] given(args@)[j]) || is_help_option(
                given(args@)[j],
            ),
    ensures
        ({
            let arg = given(args@)[at];
            let dashed = arg.len() >= 2 && arg[0] == '-';
            let long = arg.len() > 2 && arg[0] == '-' && arg[1] == '-';
            &&& !dashed ==> (error matches ArgsError::Unexpected(Token::Value(text)) && text@ == arg)
            &&& arg == seq!['-', '-'] && at + 1 < given(args@).len() ==> (
            error matches ArgsError::Unexpected(Token::Value(text)) && text@ == given(
                args@,
            )[at + 1])
            &&& long && !arg.contains('=') && !is_known_name(arg.skip(2)) ==> (
            error matches ArgsError::Unexpected(Token::Long(name)) && name@ == arg.skip(2))
            &&& long && 2 <= place < arg.len() && arg[place] == '=' && (forall|j: int|
                0 <= j < place ==> #[trigger] arg[j] != '=') ==> if is_known_name(
                arg.subrange(2, place),
            ) {
                error matches ArgsError::UnexpectedValue { option, value } && option@ == arg.take(
                    place,
                ) && value@ == arg.skip(place + 1)
            } else {
                error matches ArgsError::Unexpected(Token::Long(name)) && name@ == arg.subrange(
                    2,
                    place,
                )
            }
            &&& dashed && arg[1] != '-' && 1 <= place < arg.len() && arg[place] != 'h' && (forall|
                j: int,
            |
                1 <= j < place ==> #[trigger] arg[j] == 'h') ==> if arg[place] == '=' && place > 1 {
                error matches ArgsError::UnexpectedValue { option, value } && option@ == seq![
                    '-',
                    'h',
                ] && value@ == arg.skip(place + 1)
            } else {
                error matches ArgsError::Unexpected(Token::Short(letter)) && letter == arg[place]
            }
        }),
{
    lemma_names();
    lemma_given(args@);
    let all = given(args@);
    let arg = all[at];
    let before = lemma_prefix(all, at);
    let rest = all.skip(at);
    assert(rest[0] == arg);
    let tokens = lexed(rest);
    let first = argument_tokens(arg);
    if !ends_options(arg) {
        assert(tokens == first + lexed(rest.skip(1)));
        assert forall|i: int| 0 <= i < first.len() implies tokens[i] == #[trigger] first[i] by {
        }
    }
    let dashed = arg.len() >= 2 && arg[0] == '-';
    let long = arg.len() > 2 && arg[0] == '-' && arg[1] == '-';
    if !dashed {
        assert(tokens[0] == TokenView::Value(arg));
        lemma_first_bad(before, tokens, 0, error@);
    }
    if arg == seq!['-', '-'] && at + 1 < all.len() {
        assert(ends_options(arg));
        assert(tokens[0] == TokenView::Value(all[at + 1])) by {
            assert(rest.skip(1)[0] == all[at + 1]);
        }
        lemma_first_bad(before, tokens, 0, error@);
    }
    if long && !arg.contains('=') && !is_known_name(arg.skip(2)) {
        assert(tokens[0] == TokenView::Long(arg.skip(2)));
        lemma_first_bad(before, tokens, 0, error@);
    }
    if long && 2 <= place < arg.len() && arg[place] == '=' && (forall|j: int|
        0 <= j < place ==> #[trigger] arg[j] != '=') {
        assert(arg.contains('='));
        arg.index_of_first_ensures('=');
        let sign = arg.index_of_first('=')->0;
        assert(sign == place) by {
            if sign < place {
                assert(arg[sign] != '=');
            }
        }
        assert(tokens[0] == TokenView::Long(arg.subrange(2, place)));
        if is_known_name(arg.subrange(2, place)) {
            assert(tokens[1] == first[1]);
            assert(understood(tokens[0]));
            lemma_first_bad(before, tokens, 1, error@);
        } else {
            lemma_first_bad(before, tokens, 0, error@);
        }
    }
    if dashed && arg[1] != '-' && 1 <= place < arg.len() && arg[place] != 'h' && (forall|j: int|
        1 <= j < place ==> #[trigger] arg[j] == 'h') {
        let letters = arg.skip(1);
        assert forall|i: int| 0 <= i < place - 1 implies #[trigger] letters[i] == 'h' by {
            assert(arg[i + 1] == 'h');
        }
        assert(letters[place - 1] == arg[place]);
        lemma_letters_up_to(letters, None, place - 1);
        assert(first == letter_tokens(letters, None));
        assert(letters.skip(place) =~= arg.skip(place + 1));
        assert forall|i: int| 0 <= i < place - 1 implies understood(#[trigger] tokens[i]) by {
            assert(tokens[i] == first[i]);
        }
        assert(tokens[place - 1] == first[place - 1]);
        lemma_first_bad(before, tokens, place - 1, error@);
    }
}

/// A token is taken into account just where it is one of those that the program has, and
/// turns on what it asks for, leaving what was asked for before; any other is handed back.
pub proof fn law_a_token_turns_on_what_it_asks_for(
    args: Args,
    token: Token,
    accepted: Result<Args, Token>,
)
    requires
        call_ensures(Args::accept, (args, token), accepted),
    ensures
        ({
            let json = token matches Token::Long(name) && name@ == seq!['j', 's', 'o', 'n'];
            let help = match token {
                Token::Long(name) => name@ == seq!['h', 'e', 'l', 'p'],
                Token::Short(letter) => letter == 'h',
                Token::Value(_) => false,
            };
            if json {
                accepted == Ok::<Args, Token>(Args { json: true, help: args.help })
            } else if help {
                accepted == Ok::<Args, Token>(Args { json: args.json, help: true })
            } else {
                accepted == Err::<Args, Token>(token)
            }
        }),
{
    lemma_names();
    assert(seq!['j', 's', 'o', 'n'][0] != seq!['h', 'e', 'l', 'p'][0]);
}

} // verus!
