//! What the lines for a reader say.

use crate::game::report::evaluation_line;
use crate::game::{BaseGame, TurnStage};
use crate::text::{append_decimal, decimal, digit, digits, joined};
use vstd::prelude::*;

verus! {

/// The number that a row of decimal digits reads as.
pub open spec fn reads_as(row: Seq<char>) -> int
    decreases row.len(),
{
    if row.len() == 0 {
        0
    } else {
        reads_as(row.drop_last()) * 10 + (row.last() as int - '0' as int)
    }
}

/// Whether the text is the number in decimal: a minus sign just where it is negative, and then
/// digits alone, which read as its magnitude, without a zero before them.
pub open spec fn is_number(text: Seq<char>, n: int) -> bool {
    let row = if n < 0 {
        text.skip(1)
    } else {
        text
    };
    &&& n < 0 ==> text.len() > 0 && text[0] == '-'
    &&& row.len() > 0
    &&& forall|i: int| 0 <= i < row.len() ==> '0' as int <= (#[trigger] row[i]) as int <= '9' as int
    &&& reads_as(row) == if n < 0 {
        -n
    } else {
        n
    }
    &&& row[0] == '0' ==> n == 0 && row.len() == 1
}

proof fn lemma_digits(n: nat)
    ensures
        digits(n).len() > 0,
        forall|i: int|
            0 <= i < digits(n).len() ==> '0' as int <= (#[trigger] digits(n)[i]) as int
                <= '9' as int,
        reads_as(digits(n)) == n,
        digits(n)[0] == '0' ==> n == 0,
        digits(n).len() == 1 <==> n < 10,
    decreases n,
{
    if n < 10 {
        let row = digits(n);
        assert(row.drop_last() =~= Seq::empty());
        assert(row.last() as int == '0' as int + n);
        reveal_with_fuel(reads_as, 2);
    } else {
        lemma_digits(n / 10);
        let row = digits(n);
        assert(row.drop_last() =~= digits(n / 10));
        assert(row.last() == digit((n % 10) as int));
        assert(row.last() as int == '0' as int + n % 10);
        assert(row[0] == digits(n / 10)[0]);
        assert forall|i: int| 0 <= i < row.len() implies '0' as int <= (#[trigger] row[i]) as int
            <= '9' as int by {
            if i < row.len() - 1 {
                assert(row[i] == digits(n / 10)[i]);
            }
        }
    }
}

proof fn lemma_decimal(n: int)
    ensures
        is_number(decimal(n), n),
{
    if n < 0 {
        lemma_digits((-n) as nat);
        assert(decimal(n).skip(1) =~= digits((-n) as nat));
    } else {
        lemma_digits(n as nat);
    }
}

/// A number is appended in decimal, after what the text held.
pub proof fn law_numbers_are_written_in_decimal(text: &mut String, n: i64)
    requires
        call_ensures(append_decimal, (text, n), ()),
    ensures
        old(text)@.is_prefix_of(final(text)@),
        is_number(final(text)@.skip(old(text)@.len() as int), n as int),
{
    lemma_decimal(n as int);
    assert(final(text)@.skip(text@.len() as int) =~= decimal(n as int));
    assert(text@ =~= final(text)@.subrange(0, text@.len() as int));
}

/// Two texts are joined in their order, with nothing between them.
pub proof fn law_texts_are_joined(first: &str, second: &str, text: String)
    requires
        call_ensures(joined, (first, second), text),
    ensures
        text@.len() == first@.len() + second@.len(),
        text@.take(first@.len() as int) == first@,
        text@.skip(first@.len() as int) == second@,
{
    assert(text@.take(first@.len() as int) =~= first@);
    assert(text@.skip(first@.len() as int) =~= second@);
}

/// A stage goes by the name that the scenario gave it; the first of a turn is `Begin`.
pub proof fn law_stages_go_by_their_names(stage: &TurnStage, name: &str)
    requires
        call_ensures(TurnStage::name, (stage,), name),
    ensures
        match stage {
            TurnStage::Begin => name@ == "Begin"@,
            TurnStage::Named(given) => name@ == given@,
        },
{
}

/// The description of a career tells the turn, counted from one, then the stage, the facility
/// levels and the friend on the first line, and the trainee after it; a trainee that cannot be
/// described gives the error of that and nothing else.
pub proof fn law_a_career_is_described_in_full<E>(
    game: &BaseGame,
    train_levels: &str,
    friend: &str,
    uma: Result<String, E>,
    text: Result<String, E>,
)
    requires
        call_ensures(BaseGame::explain::<E>, (game, train_levels, friend, uma), text),
    ensures
        uma matches Err(e) ==> text == Err::<String, E>(e),
        uma matches Ok(u) ==> text is Ok && exists|number: Seq<char>|
            {
                let stage = match game.stage {
                    TurnStage::Begin => "Begin"@,
                    TurnStage::Named(name) => name@,
                };
                &&& #[trigger] is_number(number, game.turn + 1)
                &&& (text->Ok_0)@ == "回合: "@ + number + "-"@ + stage + " 设施等级: "@
                    + train_levels@ + " 友人: "@ + friend@ + "\n"@ + u@
            },
{
    lemma_decimal(game.turn + 1);
}

/// The line on a decision tells the action, the mean and the deviation of the scores in
/// decimal, and the time, in that order.
pub proof fn law_a_decision_is_reported_in_full(
    action: &str,
    score_mean: i64,
    score_stdev: i64,
    elapsed: &str,
    line: String,
)
    requires
        call_ensures(evaluation_line, (action, score_mean, score_stdev, elapsed), line),
    ensures
        exists|mean: Seq<char>, stdev: Seq<char>|
            #![trigger is_number(mean, score_mean as int), is_number(stdev, score_stdev as int)]
            is_number(mean, score_mean as int) && is_number(stdev, score_stdev as int) && line@
                == "AI选择: "@ + action@ + ", 均分: "@ + mean + ", 标准差: "@ + stdev + ", Time: "@
                + elapsed@,
{
    lemma_decimal(score_mean as int);
    lemma_decimal(score_stdev as int);
}

} // verus!
