//! What the program does as it watches a career, step by step.

use crate::args::Args;
use crate::game::BaseGame;
use crate::text::joined;
use vstd::prelude::*;

verus! {

/// The scenario of a career.
#[derive(Clone, Copy, Debug, PartialEq, Eq, Structural)]
pub enum Scenario {
    Onsen,
    Ramen,
}

/// The scenario with this number.
pub open spec fn scenario_numbered(id: i64) -> Option<Scenario> {
    if id == 12 {
        Some(Scenario::Onsen)
    } else if id == 14 {
        Some(Scenario::Ramen)
    } else {
        None
    }
}

/// The scenario with this number; `None` for one that is not supported.
pub fn scenario_of(id: i64) -> (scenario: Option<Scenario>)
    ensures
        scenario == scenario_numbered(id),
{
    if id == 12 {
        Some(Scenario::Onsen)
    } else if id == 14 {
        Some(Scenario::Ramen)
    } else {
        None
    }
}

/// Something that happened to the program.
#[derive(Debug)]
pub enum Occasion {
    /// The program could not be set up, for this reason.
    SetupFailed(String),
    /// The settings do not lie where the program runs.
    ConfigMissing,
    /// The file with the state of the career is being watched.
    WatcherReady,
    /// The file cannot be watched, for this reason.
    WatcherFailed(String),
    /// The state of a turn has been read.
    TurnRead,
    /// The state of a turn could not be read, for this reason.
    TurnUnread(String),
    /// The state was understood, as one of this scenario.
    TurnParsed(Scenario),
    /// The state was not understood, for this reason.
    TurnRejected(String),
    /// No action could be picked for the turn, for this reason.
    DecisionFailed(String),
}

/// Something for the program to do.
#[derive(Debug, PartialEq)]
pub enum Step {
    /// Print the usage on standard output.
    PrintHelp,
    /// Write no colours from now on.
    DisableColour,
    /// Show the banner on standard error.
    ShowBanner,
    /// See whether the settings lie where the program runs.
    FindConfig,
    /// Look for the directory that the program is meant to run in.
    CheckWorkingDir,
    /// Load the settings and all that depends on them.
    LoadConfig,
    /// Start to watch the file with the state of the career.
    OpenWatcher,
    /// Wait for the state of the next turn.
    ReadTurn,
    /// Make out what the state says.
    ParseTurn,
    /// Pick an action for the turn.
    Decide(Scenario),
    /// Write an event as a line of JSON on standard output.
    EmitInfo(String),
    /// Write an error as a line of JSON on standard output.
    EmitError(String),
    /// Write a warning to the log.
    Warn(String),
    /// Print a line for the player on standard output, in red.
    PrintAlert(String),
    /// Print a line for the player on standard output.
    PrintLine(String),
    /// Leave without an error.
    Stop,
    /// Leave with this error.
    Fail(String),
}

/// What an occasion holds.
pub enum OccasionView {
    SetupFailed(Seq<char>),
    ConfigMissing,
    WatcherReady,
    WatcherFailed(Seq<char>),
    TurnRead,
    TurnUnread(Seq<char>),
    TurnParsed(Scenario),
    TurnRejected(Seq<char>),
    DecisionFailed(Seq<char>),
}

impl View for Occasion {
    type V = OccasionView;

    open spec fn view(&self) -> OccasionView {
        match self {
            Occasion::SetupFailed(reason) => OccasionView::SetupFailed(reason@),
            Occasion::ConfigMissing => OccasionView::ConfigMissing,
            Occasion::WatcherReady => OccasionView::WatcherReady,
            Occasion::WatcherFailed(reason) => OccasionView::WatcherFailed(reason@),
            Occasion::TurnRead => OccasionView::TurnRead,
            Occasion::TurnUnread(reason) => OccasionView::TurnUnread(reason@),
            Occasion::TurnParsed(scenario) => OccasionView::TurnParsed(*scenario),
            Occasion::TurnRejected(reason) => OccasionView::TurnRejected(reason@),
            Occasion::DecisionFailed(reason) => OccasionView::DecisionFailed(reason@),
        }
    }
}

/// What a step holds.
pub enum StepView {
    PrintHelp,
    DisableColour,
    ShowBanner,
    FindConfig,
    CheckWorkingDir,
    LoadConfig,
    OpenWatcher,
    ReadTurn,
    ParseTurn,
    Decide(Scenario),
    EmitInfo(Seq<char>),
    EmitError(Seq<char>),
    Warn(Seq<char>),
    PrintAlert(Seq<char>),
    PrintLine(Seq<char>),
    Stop,
    Fail(Seq<char>),
}

impl View for Step {
    type V = StepView;

    open spec fn view(&self) -> StepView {
        match self {
            Step::PrintHelp => StepView::PrintHelp,
            Step::DisableColour => StepView::DisableColour,
            Step::ShowBanner => StepView::ShowBanner,
            Step::FindConfig => StepView::FindConfig,
            Step::CheckWorkingDir => StepView::CheckWorkingDir,
            Step::LoadConfig => StepView::LoadConfig,
            Step::OpenWatcher => StepView::OpenWatcher,
            Step::ReadTurn => StepView::ReadTurn,
            Step::ParseTurn => StepView::ParseTurn,
            Step::Decide(scenario) => StepView::Decide(*scenario),
            Step::EmitInfo(event) => StepView::EmitInfo(event@),
            Step::EmitError(message) => StepView::EmitError(message@),
            Step::Warn(message) => StepView::Warn(message@),
            Step::PrintAlert(message) => StepView::PrintAlert(message@),
            Step::PrintLine(line) => StepView::PrintLine(line@),
            Step::Stop => StepView::Stop,
            Step::Fail(reason) => StepView::Fail(reason@),
        }
    }
}

/// What each step of a list holds.
pub open spec fn step_views(steps: Seq<Step>) -> Seq<StepView> {
    Seq::new(steps.len(), |i: int| steps[i]@)
}

/// What a list holds where the condition is met, else nothing.
pub open spec fn only_if(condition: bool, steps: Seq<StepView>) -> Seq<StepView> {
    if condition {
        steps
    } else {
        Seq::empty()
    }
}

/// The steps at the start.
pub open spec fn launch_steps(args: Args) -> Seq<StepView> {
    if args.help {
        seq![StepView::PrintHelp, StepView::Stop]
    } else {
        only_if(args.json, seq![StepView::DisableColour]) + seq![
            StepView::ShowBanner,
            StepView::FindConfig,
            StepView::LoadConfig,
            StepView::OpenWatcher,
        ]
    }
}

/// The steps on an occasion. Events and errors go to standard output as JSON where that was
/// asked for; a rejected turn is else told to the player in words, and the next one is waited
/// for either way. A watcher that cannot be opened ends the program without an error. What
/// fails in setting up, reading a turn or picking an action ends it with that error. Where the
/// settings are missing, the directory is looked for.
pub open spec fn response_steps(json: bool, occasion: OccasionView) -> Seq<StepView> {
    match occasion {
        OccasionView::SetupFailed(reason) => seq![StepView::Fail(reason)],
        OccasionView::TurnUnread(reason) => seq![StepView::Fail(reason)],
        OccasionView::DecisionFailed(reason) => seq![StepView::Fail(reason)],
        OccasionView::ConfigMissing => seq![StepView::CheckWorkingDir],
        OccasionView::WatcherReady => only_if(json, seq![StepView::EmitInfo("connected"@)])
            + seq![StepView::ReadTurn],
        OccasionView::WatcherFailed(reason) => only_if(
            json,
            seq![StepView::EmitError("watcher 初始化失败: "@ + reason)],
        ) + seq![
            StepView::Warn(
                "UraFileWatcher init 失败: "@ + reason
                    + "，main 不进入 watch loop，程序正常退出（exit 0）"@,
            ),
            StepView::Stop,
        ],
        OccasionView::TurnRead => only_if(json, seq![StepView::EmitInfo("compute_start"@)])
            + seq![StepView::ParseTurn],
        OccasionView::TurnParsed(scenario) => seq![StepView::Decide(scenario), StepView::ReadTurn],
        OccasionView::TurnRejected(reason) => if json {
            seq![StepView::EmitError("解析回合信息出错: "@ + reason), StepView::ReadTurn]
        } else {
            seq![
                StepView::PrintAlert("解析回合信息出错: "@ + reason),
                StepView::PrintLine("----------"@),
                StepView::ReadTurn,
            ]
        },
    }
}

/// What to do at the start: the usage and nothing else where that was asked for, else all
/// that leads up to watching the career.
pub fn launch(args: &Args) -> (steps: Vec<Step>)
    ensures
        step_views(steps@) == launch_steps(*args),
{
    let mut steps: Vec<Step> = Vec::new();
    if args.help {
        steps.push(Step::PrintHelp);
        steps.push(Step::Stop);
    } else {
        if args.json {
            steps.push(Step::DisableColour);
        }
        steps.push(Step::ShowBanner);
        steps.push(Step::FindConfig);
        steps.push(Step::LoadConfig);
        steps.push(Step::OpenWatcher);
    }
    assert(step_views(steps@) =~= launch_steps(*args));
    steps
}

/// The steps to do after an occasion: it is responded to before anything that was still to
/// come.
pub fn interrupt(pending: Vec<Step>, responses: Vec<Step>) -> (steps: Vec<Step>)
    ensures
        step_views(steps@) == step_views(responses@) + step_views(pending@),
{
    let mut steps: Vec<Step> = responses;
    let mut rest: Vec<Step> = pending;
    steps.append(&mut rest);
    assert(step_views(steps@) =~= step_views(responses@) + step_views(pending@));
    steps
}

/// What to do on an occasion.
pub fn respond(json: bool, occasion: &Occasion) -> (steps: Vec<Step>)
    ensures
        step_views(steps@) == response_steps(json, occasion@),
{
    let mut steps: Vec<Step> = Vec::new();
    match occasion {
        Occasion::SetupFailed(reason) => {
            steps.push(Step::Fail(reason.clone()));
        },
        Occasion::TurnUnread(reason) => {
            steps.push(Step::Fail(reason.clone()));
        },
        Occasion::DecisionFailed(reason) => {
            steps.push(Step::Fail(reason.clone()));
        },
        Occasion::ConfigMissing => {
            steps.push(Step::CheckWorkingDir);
        },
        Occasion::WatcherReady => {
            if json {
                steps.push(Step::EmitInfo("connected".to_owned()));
            }
            steps.push(Step::ReadTurn);
        },
        Occasion::WatcherFailed(reason) => {
            if json {
                steps.push(Step::EmitError(joined("watcher 初始化失败: ", reason.as_str())));
            }
            let warning: String = joined("UraFileWatcher init 失败: ", reason.as_str());
            steps.push(
                Step::Warn(
                    joined(
                        warning.as_str(),
                        "，main 不进入 watch loop，程序正常退出（exit 0）",
                    ),
                ),
            );
            steps.push(Step::Stop);
        },
        Occasion::TurnRead => {
            if json {
                steps.push(Step::EmitInfo("compute_start".to_owned()));
            }
            steps.push(Step::ParseTurn);
        },
        Occasion::TurnParsed(scenario) => {
            steps.push(Step::Decide(*scenario));
            steps.push(Step::ReadTurn);
        },
        Occasion::TurnRejected(reason) => {
            let message: String = joined("解析回合信息出错: ", reason.as_str());
            if json {
                steps.push(Step::EmitError(message));
            } else {
                steps.push(Step::PrintAlert(message));
                steps.push(Step::PrintLine("----------".to_owned()));
            }
            steps.push(Step::ReadTurn);
        },
    }
    assert(step_views(steps@) =~= response_steps(json, occasion@));
    steps
}

/// The steps that tell of an error that ended the program.
pub open spec fn failure_steps(reason: Seq<char>) -> Seq<StepView> {
    seq![
        StepView::PrintAlert("UmaAI 出现错误，即将退出:"@),
        StepView::PrintAlert("-----------------------------------"@),
        StepView::PrintAlert(reason),
    ]
}

/// How to tell of an error that ended the program: in words, whatever was asked for.
pub fn report_failure(reason: &str) -> (steps: Vec<Step>)
    ensures
        step_views(steps@) == failure_steps(reason@),
{
    let mut steps: Vec<Step> = Vec::new();
    steps.push(Step::PrintAlert("UmaAI 出现错误，即将退出:".to_owned()));
    steps.push(Step::PrintAlert("-----------------------------------".to_owned()));
    steps.push(Step::PrintAlert(reason.to_owned()));
    assert(step_views(steps@) =~= failure_steps(reason@));
    steps
}

/// The career as it is decided on: in the ramen scenario the setting says whether missing
/// races of the player's own choice are let pass.
pub open spec fn prepared(game: BaseGame, scenario: Scenario, ramen_skip_free_race: bool) -> BaseGame {
    match scenario {
        Scenario::Ramen => BaseGame { skip_free_race_check: ramen_skip_free_race, ..game },
        Scenario::Onsen => game,
    }
}

/// Makes a career that was read from the game ready for a decision.
pub fn prepare_turn(game: &mut BaseGame, scenario: Scenario, ramen_skip_free_race: bool)
    ensures
        *final(game) == prepared(*old(game), scenario, ramen_skip_free_race),
{
    match scenario {
        Scenario::Ramen => {
            game.skip_free_race_check = ramen_skip_free_race;
        },
        Scenario::Onsen => {},
    }
}

} // verus!
