//! Lines that describe a career to a reader.

use crate::game::BaseGame;
use crate::text::{append_decimal, decimal};
use vstd::prelude::*;
use vstd::string::StringExecFns;

verus! {

/// The line that reports the action picked for a turn, with the mean and the deviation of
/// the scores that speak for it.
pub open spec fn evaluation_text(
    action: Seq<char>,
    score_mean: int,
    score_stdev: int,
    elapsed: Seq<char>,
) -> Seq<char> {
    "AI选择: "@ + action + ", 均分: "@ + decimal(score_mean) + ", 标准差: "@ + decimal(score_stdev)
        + ", Time: "@ + elapsed
}

/// The line that reports the action picked for a turn.
pub fn evaluation_line(action: &str, score_mean: i64, score_stdev: i64, elapsed: &str) -> (line:
    String)
    ensures
        line@ == evaluation_text(action@, score_mean as int, score_stdev as int, elapsed@),
{
    let mut line: String = String::new();
    line.append("AI选择: ");
    line.append(action);
    line.append(", 均分: ");
    append_decimal(&mut line, score_mean);
    line.append(", 标准差: ");
    append_decimal(&mut line, score_stdev);
    line.append(", Time: ");
    line.append(elapsed);
    assert(line@ =~= evaluation_text(
        action@,
        score_mean as int,
        score_stdev as int,
        elapsed@,
    ));
    line
}

impl BaseGame {
    /// The description of the career: turn, stage, facility levels and friend on one line,
    /// the trainee on the next.
    pub open spec fn explanation(
        self,
        train_levels: Seq<char>,
        friend: Seq<char>,
        uma: Seq<char>,
    ) -> Seq<char> {
        "回合: "@ + decimal(self.turn + 1) + "-"@ + self.stage.spec_name() + " 设施等级: "@
            + train_levels + " 友人: "@ + friend + "\n"@ + uma
    }

    /// Describes the career, given the descriptions of its parts. Where the trainee cannot
    /// be described, that error is handed on.
    pub fn explain<E>(&self, train_levels: &str, friend: &str, uma: Result<String, E>) -> (text:
        Result<String, E>)
        requires
            self.turn < i32::MAX,
        ensures
            match uma {
                Ok(u) => text matches Ok(t) && t@ == self.explanation(
                    train_levels@,
                    friend@,
                    u@,
                ),
                Err(e) => text == Err::<String, E>(e),
            },
    {
        let uma: String = match uma {
            Ok(uma) => uma,
            Err(e) => {
                return Err(e);
            },
        };
        let mut text: String = String::new();
        text.append("回合: ");
        append_decimal(&mut text, self.turn as i64 + 1);
        text.append("-");
        text.append(self.stage.name());
        text.append(" 设施等级: ");
        text.append(train_levels);
        text.append(" 友人: ");
        text.append(friend);
        text.append("\n");
        text.append(uma.as_str());
        assert(text@ =~= self.explanation(train_levels@, friend@, uma@));
        Ok(text)
    }
}

} // verus!
