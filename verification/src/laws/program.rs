//! What the program does, step by step.

use crate::args::{parse_args, Args};
use crate::game::BaseGame;
use crate::session::{
    interrupt, launch, prepare_turn, report_failure, respond, scenario_of, step_views, Occasion,
    Scenario, Step,
};
use vstd::prelude::*;

verus! {

/// The steps of a list show one by one what they hold.
proof fn lemma_shown(steps: Vec<Step>)
    ensures
        step_views(steps@).len() == steps@.len(),
        forall|i: int| 0 <= i < steps@.len() ==> step_views(steps@)[i] == (#[trigger] steps@[i])@,
{
}

/// Whether both steps are the same, and tell the same.
pub open spec fn is_same_step(a: Step, b: Step) -> bool {
    match (a, b) {
        (Step::PrintHelp, Step::PrintHelp) => true,
        (Step::DisableColour, Step::DisableColour) => true,
        (Step::ShowBanner, Step::ShowBanner) => true,
        (Step::FindConfig, Step::FindConfig) => true,
        (Step::CheckWorkingDir, Step::CheckWorkingDir) => true,
        (Step::LoadConfig, Step::LoadConfig) => true,
        (Step::OpenWatcher, Step::OpenWatcher) => true,
        (Step::ReadTurn, Step::ReadTurn) => true,
        (Step::ParseTurn, Step::ParseTurn) => true,
        (Step::Decide(s), Step::Decide(t)) => s == t,
        (Step::EmitInfo(s), Step::EmitInfo(t)) => s@ == t@,
        (Step::EmitError(s), Step::EmitError(t)) => s@ == t@,
        (Step::Warn(s), Step::Warn(t)) => s@ == t@,
        (Step::PrintAlert(s), Step::PrintAlert(t)) => s@ == t@,
        (Step::PrintLine(s), Step::PrintLine(t)) => s@ == t@,
        (Step::Stop, Step::Stop) => true,
        (Step::Fail(s), Step::Fail(t)) => s@ == t@,
        _ => false,
    }
}

/// A turn that was understood is decided on as one of its own scenario, once and first of all,
/// and then the next turn is waited for, in either mode.
pub proof fn law_a_turn_goes_to_its_scenario(json: bool, occasion: &Occasion, steps: Vec<Step>)
    requires
        call_ensures(respond, (json, occasion), steps),
    ensures
        occasion matches Occasion::TurnParsed(scenario) ==> {
            &&& steps@.len() == 2
            &&& steps@[0] == Step::Decide(*scenario)
            &&& steps@[1] == Step::ReadTurn
        },
        forall|i: int|
            0 <= i < steps@.len() && (#[trigger] steps@[i]) is Decide ==> i == 0 && *occasion
                == Occasion::TurnParsed(steps@[i]->Decide_0),
{
    lemma_shown(steps);
    assert forall|i: int| 0 <= i < steps@.len() && (#[trigger] steps@[i]) is Decide implies i == 0
        && *occasion == Occasion::TurnParsed(steps@[i]->Decide_0) by {
        assert(step_views(steps@)[i] == steps@[i]@);
    }
    if occasion is TurnParsed {
        assert(step_views(steps@)[0] == steps@[0]@);
        assert(step_views(steps@)[1] == steps@[1]@);
    }
}

/// Every step has its occasion. JSON lines come in JSON mode alone and words for the player in
/// the other alone, each of them only on the occasion that it tells of; and a step that ends
/// the program comes only where a watcher or something that the program cannot do without has
/// failed.
pub proof fn law_every_step_has_its_occasion(
    json: bool,
    occasion: &Occasion,
    steps: Vec<Step>,
    i: int,
)
    requires
        call_ensures(respond, (json, occasion), steps),
        0 <= i < steps@.len(),
    ensures
        match steps@[i] {
            Step::CheckWorkingDir => occasion is ConfigMissing,
            Step::ParseTurn => occasion is TurnRead && i == steps@.len() - 1,
            Step::ReadTurn => (occasion is WatcherReady || occasion is TurnParsed
                || occasion is TurnRejected) && i == steps@.len() - 1,
            Step::Decide(scenario) => *occasion == Occasion::TurnParsed(scenario),
            Step::EmitInfo(event) => json && match occasion {
                Occasion::WatcherReady => event@ == "connected"@,
                Occasion::TurnRead => event@ == "compute_start"@,
                _ => false,
            },
            Step::EmitError(message) => json && match occasion {
                Occasion::WatcherFailed(reason) => message@ == "watcher 初始化失败: "@ + reason@,
                Occasion::TurnRejected(reason) => message@ == "解析回合信息出错: "@ + reason@,
                _ => false,
            },
            Step::Warn(message) => occasion matches Occasion::WatcherFailed(reason) && message@
                == "UraFileWatcher init 失败: "@ + reason@
                + "，main 不进入 watch loop，程序正常退出（exit 0）"@,
            Step::PrintAlert(message) => !json && (occasion matches Occasion::TurnRejected(reason)
                && message@ == "解析回合信息出错: "@ + reason@),
            Step::PrintLine(line) => !json && occasion is TurnRejected && line@ == "----------"@,
            Step::Stop => occasion is WatcherFailed && i == steps@.len() - 1,
            Step::Fail(error) => steps@.len() == 1 && match occasion {
                Occasion::SetupFailed(reason) => error@ == reason@,
                Occasion::TurnUnread(reason) => error@ == reason@,
                Occasion::DecisionFailed(reason) => error@ == reason@,
                _ => false,
            },
            _ => false,
        },
{
    lemma_shown(steps);
    assert(step_views(steps@)[i] == steps@[i]@);
}

/// Every occasion has its steps, and no more than those: how many they are, and which of them
/// comes last, goes by the occasion and the mode alone.
pub proof fn law_every_occasion_has_its_steps(json: bool, occasion: &Occasion, steps: Vec<Step>)
    requires
        call_ensures(respond, (json, occasion), steps),
    ensures
        match occasion {
            Occasion::SetupFailed(_) => steps@.len() == 1 && steps@[0] is Fail,
            Occasion::TurnUnread(_) => steps@.len() == 1 && steps@[0] is Fail,
            Occasion::DecisionFailed(_) => steps@.len() == 1 && steps@[0] is Fail,
            Occasion::ConfigMissing => steps@.len() == 1 && steps@[0] is CheckWorkingDir,
            Occasion::WatcherReady => if json {
                steps@.len() == 2 && steps@[0] is EmitInfo && steps@[1] is ReadTurn
            } else {
                steps@.len() == 1 && steps@[0] is ReadTurn
            },
            Occasion::WatcherFailed(_) => if json {
                steps@.len() == 3 && steps@[0] is EmitError && steps@[1] is Warn
                    && steps@[2] is Stop
            } else {
                steps@.len() == 2 && steps@[0] is Warn && steps@[1] is Stop
            },
            Occasion::TurnRead => if json {
                steps@.len() == 2 && steps@[0] is EmitInfo && steps@[1] is ParseTurn
            } else {
                steps@.len() == 1 && steps@[0] is ParseTurn
            },
            Occasion::TurnParsed(_) => steps@.len() == 2 && steps@[0] is Decide
                && steps@[1] is ReadTurn,
            Occasion::TurnRejected(_) => if json {
                steps@.len() == 2 && steps@[0] is EmitError && steps@[1] is ReadTurn
            } else {
                steps@.len() == 3 && steps@[0] is PrintAlert && steps@[1] is PrintLine
                    && steps@[2] is ReadTurn
            },
        },
{
    lemma_shown(steps);
    assert forall|i: int| 0 <= i < steps@.len() implies (#[trigger] steps@[i])@ == step_views(
        steps@,
    )[i] by {
    }
}

/// A turn that is not understood is told in the same words in either mode, as JSON in the one
/// and in red in the other.
pub proof fn law_both_modes_tell_the_same(occasion: &Occasion, lines: Vec<Step>, words: Vec<Step>)
    requires
        occasion is TurnRejected,
        call_ensures(respond, (true, occasion), lines),
        call_ensures(respond, (false, occasion), words),
    ensures
        lines@[0] is EmitError,
        words@[0] is PrintAlert,
        lines@[0]->EmitError_0@ == words@[0]->PrintAlert_0@,
        (occasion->TurnRejected_0)@.is_suffix_of(lines@[0]->EmitError_0@),
{
    law_every_occasion_has_its_steps(true, occasion, lines);
    law_every_occasion_has_its_steps(false, occasion, words);
    law_every_step_has_its_occasion(true, occasion, lines, 0);
    law_every_step_has_its_occasion(false, occasion, words, 0);
    let prefix = "解析回合信息出错: "@;
    let reason = (occasion->TurnRejected_0)@;
    assert((prefix + reason).skip(prefix.len() as int) =~= reason);
}

/// The start goes by what was asked for: the usage and nothing else; or colours off first of
/// all where JSON was asked for, and then banner, settings and watcher, in that order.
pub proof fn law_the_start_is_in_order(args: &Args, steps: Vec<Step>)
    requires
        call_ensures(launch, (args,), steps),
    ensures
        args.help ==> steps@.len() == 2 && steps@[0] is PrintHelp && steps@[1] is Stop,
        !args.help ==> {
            let first = if args.json {
                1int
            } else {
                0
            };
            &&& steps@.len() == first + 4
            &&& args.json ==> steps@[0] is DisableColour
            &&& steps@[first] is ShowBanner
            &&& steps@[first + 1] is FindConfig
            &&& steps@[first + 2] is LoadConfig
            &&& steps@[first + 3] is OpenWatcher
        },
{
    lemma_shown(steps);
    assert forall|i: int| 0 <= i < steps@.len() implies (#[trigger] steps@[i])@ == step_views(
        steps@,
    )[i] by {
    }
}

/// The responses to an occasion come before all that was pending; each list keeps its order,
/// and nothing is lost or added.
pub proof fn law_responses_come_first(pending: Vec<Step>, responses: Vec<Step>, steps: Vec<Step>)
    requires
        call_ensures(interrupt, (pending, responses), steps),
    ensures
        steps@.len() == responses@.len() + pending@.len(),
        forall|i: int|
            0 <= i < responses@.len() ==> is_same_step(#[trigger] steps@[i], responses@[i]),
        forall|i: int|
            0 <= i < pending@.len() ==> is_same_step(
                steps@[responses@.len() + i],
                #[trigger] pending@[i],
            ),
{
    lemma_shown(steps);
    lemma_shown(responses);
    lemma_shown(pending);
    let all = step_views(steps@);
    assert(all.len() == steps@.len());
    assert forall|i: int| 0 <= i < responses@.len() implies is_same_step(
        #[trigger] steps@[i],
        responses@[i],
    ) by {
        assert(all[i] == step_views(responses@)[i]);
        lemma_same_step(steps@[i], responses@[i]);
    }
    assert forall|i: int| 0 <= i < pending@.len() implies is_same_step(
        steps@[responses@.len() + i],
        #[trigger] pending@[i],
    ) by {
        assert(all[responses@.len() + i] == step_views(pending@)[i]);
        lemma_same_step(steps@[responses@.len() + i], pending@[i]);
    }
}

proof fn lemma_same_step(a: Step, b: Step)
    requires
        a@ == b@,
    ensures
        is_same_step(a, b),
{
}

/// An error that ends the program is told in three lines of words: that there is one, a rule,
/// and the error itself.
pub proof fn law_an_error_is_told_in_words(reason: &str, steps: Vec<Step>)
    requires
        call_ensures(report_failure, (reason,), steps),
    ensures
        steps@.len() == 3,
        forall|i: int| 0 <= i < 3 ==> (#[trigger] steps@[i]) is PrintAlert,
        steps@[0]->PrintAlert_0@ == "UmaAI 出现错误，即将退出:"@,
        steps@[1]->PrintAlert_0@ == "-----------------------------------"@,
        steps@[2]->PrintAlert_0@ == reason@,
{
    lemma_shown(steps);
    assert(steps@[0]@ == step_views(steps@)[0]);
    assert(steps@[1]@ == step_views(steps@)[1]);
    assert(steps@[2]@ == step_views(steps@)[2]);
}

/// Scenario 12 is onsen, scenario 14 is ramen, and no other is supported.
pub proof fn law_which_scenarios_there_are(id: i64, scenario: Option<Scenario>)
    requires
        call_ensures(scenario_of, (id,), scenario),
    ensures
        scenario == Some(Scenario::Onsen) <==> id == 12,
        scenario == Some(Scenario::Ramen) <==> id == 14,
{
}

/// Making a career ready sets the switch of a ramen career as the setting says, on or off, and
/// touches nothing else of it; an onsen career is not touched at all.
pub proof fn law_the_setting_is_the_switch(
    game: &mut BaseGame,
    scenario: Scenario,
    ramen_skip_free_race: bool,
)
    requires
        call_ensures(prepare_turn, (game, scenario, ramen_skip_free_race), ()),
    ensures
        scenario is Ramen ==> final(game).skip_free_race_check == ramen_skip_free_race,
        scenario is Onsen ==> final(game).skip_free_race_check == old(game).skip_free_race_check,
        final(game).turn == old(game).turn,
        final(game).stage == old(game).stage,
        final(game).uma == old(game).uma,
        final(game).deck == old(game).deck,
        final(game).inherit == old(game).inherit,
        final(game).friend == old(game).friend,
        final(game).train_level_count == old(game).train_level_count,
        final(game).distribution == old(game).distribution,
        final(game).absent_rate_drop == old(game).absent_rate_drop,
        final(game).events == old(game).events,
        final(game).unresolved_events == old(game).unresolved_events,
        final(game).card_type_count == old(game).card_type_count,
        final(game).friend_event_ids == old(game).friend_event_ids,
{
}

/// Whatever happens, the program has an answer.
pub proof fn law_the_program_always_has_an_answer(
    json: bool,
    args: &Args,
    line: Vec<String>,
    occasion: &Occasion,
    pending: Vec<Step>,
    responses: Vec<Step>,
    reason: &str,
    id: i64,
    game: &mut BaseGame,
    scenario: Scenario,
)
    ensures
        call_requires(parse_args, (line,)),
        call_requires(launch, (args,)),
        call_requires(respond, (json, occasion)),
        call_requires(interrupt, (pending, responses)),
        call_requires(report_failure, (reason,)),
        call_requires(scenario_of, (id,)),
        call_requires(prepare_turn, (old(game), scenario, json)),
{
}

} // verus!
