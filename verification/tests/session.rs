use umasim::args::Args;
use umasim::game::report::evaluation_line;
use umasim::session::{interrupt, launch, report_failure, respond, scenario_of, Occasion, Scenario, Step};

#[test]
fn scenarios_go_by_their_number() {
    assert_eq!(scenario_of(12), Some(Scenario::Onsen));
    assert_eq!(scenario_of(14), Some(Scenario::Ramen));
    for id in [-1, 0, 11, 13, 15] {
        assert_eq!(scenario_of(id), None);
    }
}

#[test]
fn help_ends_the_program_at_once() {
    for json in [false, true] {
        let steps = launch(&Args { json, help: true });
        assert_eq!(steps, vec![Step::PrintHelp, Step::Stop]);
    }
}

#[test]
fn the_start_depends_on_arguments_and_settings() {
    assert_eq!(
        launch(&Args { json: true, help: false }),
        vec![
            Step::DisableColour,
            Step::ShowBanner,
            Step::FindConfig,
            Step::LoadConfig,
            Step::OpenWatcher
        ]
    );
    assert_eq!(
        launch(&Args::default()),
        vec![Step::ShowBanner, Step::FindConfig, Step::LoadConfig, Step::OpenWatcher]
    );
    for json in [false, true] {
        assert_eq!(respond(json, &Occasion::ConfigMissing), vec![Step::CheckWorkingDir]);
    }
}

#[test]
fn an_occasion_is_responded_to_before_the_rest() {
    let pending = vec![Step::LoadConfig, Step::OpenWatcher];
    assert_eq!(
        interrupt(pending, respond(true, &Occasion::ConfigMissing)),
        vec![Step::CheckWorkingDir, Step::LoadConfig, Step::OpenWatcher]
    );
    assert_eq!(interrupt(vec![Step::Stop], vec![]), vec![Step::Stop]);
    assert_eq!(interrupt(vec![], vec![Step::Stop]), vec![Step::Stop]);
}

#[test]
fn json_lines_tell_of_every_occasion() {
    assert_eq!(
        respond(true, &Occasion::WatcherReady),
        vec![Step::EmitInfo("connected".to_string()), Step::ReadTurn]
    );
    assert_eq!(
        respond(true, &Occasion::TurnRead),
        vec![Step::EmitInfo("compute_start".to_string()), Step::ParseTurn]
    );
    assert_eq!(
        respond(true, &Occasion::TurnRejected("bad".to_string())),
        vec![Step::EmitError("解析回合信息出错: bad".to_string()), Step::ReadTurn]
    );
    assert_eq!(
        respond(true, &Occasion::WatcherFailed("gone".to_string())),
        vec![
            Step::EmitError("watcher 初始化失败: gone".to_string()),
            Step::Warn(
                "UraFileWatcher init 失败: gone，main 不进入 watch loop，程序正常退出（exit 0）"
                    .to_string()
            ),
            Step::Stop
        ]
    );
}

#[test]
fn the_player_is_told_in_words() {
    assert_eq!(respond(false, &Occasion::WatcherReady), vec![Step::ReadTurn]);
    assert_eq!(respond(false, &Occasion::TurnRead), vec![Step::ParseTurn]);
    assert_eq!(
        respond(false, &Occasion::TurnRejected("bad".to_string())),
        vec![
            Step::PrintAlert("解析回合信息出错: bad".to_string()),
            Step::PrintLine("----------".to_string()),
            Step::ReadTurn
        ]
    );
    assert_eq!(respond(false, &Occasion::WatcherFailed("x".to_string())).last(), Some(&Step::Stop));
}

#[test]
fn a_turn_that_is_understood_is_decided_on() {
    for json in [false, true] {
        assert_eq!(
            respond(json, &Occasion::TurnParsed(Scenario::Ramen)),
            vec![Step::Decide(Scenario::Ramen), Step::ReadTurn]
        );
    }
}

#[test]
fn the_evaluation_is_reported_on_one_line() {
    assert_eq!(
        evaluation_line("Train(0)", 51234, -7, "1.5s"),
        "AI选择: Train(0), 均分: 51234, 标准差: -7, Time: 1.5s"
    );
    assert_eq!(
        evaluation_line("", i64::MIN, 0, ""),
        "AI选择: , 均分: -9223372036854775808, 标准差: 0, Time: "
    );
    assert_eq!(
        evaluation_line("", i64::MAX, 10, ""),
        "AI选择: , 均分: 9223372036854775807, 标准差: 10, Time: "
    );
}

#[test]
fn an_error_ends_the_program() {
    for json in [false, true] {
        let fail = vec![Step::Fail("gone".to_string())];
        assert_eq!(respond(json, &Occasion::SetupFailed("gone".to_string())), fail);
        assert_eq!(respond(json, &Occasion::TurnUnread("gone".to_string())), fail);
        assert_eq!(respond(json, &Occasion::DecisionFailed("gone".to_string())), fail);
    }
    assert_eq!(
        report_failure("gone"),
        vec![
            Step::PrintAlert("UmaAI 出现错误，即将退出:".to_string()),
            Step::PrintAlert("-----------------------------------".to_string()),
            Step::PrintAlert("gone".to_string())
        ]
    );
}

#[test]
fn rejected_turns_are_reported_until_one_cannot_be_read() {
    let occasions = [
        Occasion::WatcherReady,
        Occasion::TurnRead,
        Occasion::TurnRejected("p".to_string()),
        Occasion::TurnRead,
        Occasion::TurnRejected("q".to_string()),
        Occasion::TurnUnread("w".to_string()),
    ];
    let steps: Vec<Step> = occasions.iter().flat_map(|occasion| respond(true, occasion)).collect();
    let lines: Vec<&Step> = steps
        .iter()
        .filter(|step| matches!(step, Step::EmitInfo(_) | Step::EmitError(_) | Step::Fail(_)))
        .collect();
    assert_eq!(
        lines,
        vec![
            &Step::EmitInfo("connected".to_string()),
            &Step::EmitInfo("compute_start".to_string()),
            &Step::EmitError("解析回合信息出错: p".to_string()),
            &Step::EmitInfo("compute_start".to_string()),
            &Step::EmitError("解析回合信息出错: q".to_string()),
            &Step::Fail("w".to_string())
        ]
    );
}
