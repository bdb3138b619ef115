use wlog::cli::{
    Action, AddLogCmd, Cli, Command, LogFormat, ProjectAction, ProjectCmd, ScheduleAction,
    ScheduleCmd, TaskAction, TaskCmd,
};
use wlog::date::{Date, Weekday};
use wlog::log_entries::{aggregate_by_task, total_minutes, LogEntryExpanded};
use wlog::resolve::DateArgGroup;
use wlog::tasks::{
    like_pattern, plan_task_lookup, resolve_task_lookup, TaskId, TaskLookup, TaskResolution,
};
use wlog::utils::{fmt_issue_linked, yn_answer};

fn entry(task: i32, name: &str, issue: Option<i32>, day: u8, minutes: i64) -> LogEntryExpanded {
    LogEntryExpanded {
        task_id: TaskId(task),
        task_name: name.to_string(),
        issue_number: issue,
        date: Date { year: 2025, month: 1, day },
        minutes,
    }
}

#[test]
fn aggregation_by_task() {
    let entries = vec![
        entry(1, "alpha", Some(10), 2, 30),
        entry(2, "beta", None, 3, 45),
        entry(1, "alpha", Some(10), 4, 15),
        entry(3, "gamma", Some(12), 5, 60),
        entry(2, "beta", None, 6, 5),
    ];
    let grouped = aggregate_by_task(&entries);
    assert_eq!(grouped.len(), 3);
    assert_eq!(grouped[0].task_id, TaskId(1));
    assert_eq!(grouped[0].minutes, 45);
    assert_eq!(grouped[0].date, Date { year: 2025, month: 1, day: 2 });
    assert_eq!(grouped[1].task_id, TaskId(2));
    assert_eq!(grouped[1].minutes, 50);
    assert_eq!(grouped[2].task_id, TaskId(3));
    assert_eq!(grouped[2].minutes, 60);
    assert_eq!(total_minutes(&entries), 155);
    assert_eq!(total_minutes(&grouped), 155);
}

#[test]
fn issue_links() {
    assert_eq!(
        fmt_issue_linked(42, "https://example.com/repo"),
        "\u{1b}]8;;https://example.com/repo/issues/42\u{1b}\\#42\u{1b}]8;;\u{1b}\\"
    );
    assert_eq!(
        fmt_issue_linked(-7, "u"),
        "\u{1b}]8;;u/issues/-7\u{1b}\\#-7\u{1b}]8;;\u{1b}\\"
    );
    assert_eq!(
        fmt_issue_linked(0, ""),
        "\u{1b}]8;;/issues/0\u{1b}\\#0\u{1b}]8;;\u{1b}\\"
    );
}

#[test]
fn yes_no_answers() {
    assert_eq!(yn_answer('y'), Some(true));
    assert_eq!(yn_answer('Y'), Some(true));
    assert_eq!(yn_answer('\n'), Some(true));
    assert_eq!(yn_answer('n'), Some(false));
    assert_eq!(yn_answer('N'), Some(false));
    assert_eq!(yn_answer('x'), None);
}

#[test]
fn task_lookup_planning() {
    assert_eq!(plan_task_lookup(&None, &None), TaskLookup::Nothing);
    assert_eq!(
        plan_task_lookup(&None, &Some("fix".to_string())),
        TaskLookup::ByName("fix".to_string())
    );
    assert_eq!(plan_task_lookup(&Some(3), &None), TaskLookup::ByIssue(3));
    assert_eq!(
        plan_task_lookup(&Some(3), &Some("fix".to_string())),
        TaskLookup::ByIssueAndName(3, "fix".to_string())
    );

    assert_eq!(
        resolve_task_lookup(&None, &None, &None),
        TaskResolution::CreateInteractive(None)
    );
    assert_eq!(
        resolve_task_lookup(&Some(3), &None, &Some(TaskId(7))),
        TaskResolution::Use(TaskId(7))
    );
    assert_eq!(
        resolve_task_lookup(&Some(3), &None, &None),
        TaskResolution::CreateInteractive(Some(3))
    );
    assert_eq!(
        resolve_task_lookup(&None, &Some("fix".to_string()), &None),
        TaskResolution::Create { name: "fix".to_string(), issue: None }
    );
    assert_eq!(
        resolve_task_lookup(&Some(3), &Some("fix".to_string()), &None),
        TaskResolution::Create { name: "fix".to_string(), issue: Some(3) }
    );
}

#[test]
fn like_patterns() {
    assert_eq!(like_pattern("abc"), "%abc%");
    assert_eq!(like_pattern("a%b_c\\"), "%a\\%b\\_c\\\\%");
    assert_eq!(like_pattern(""), "%%");
}

#[test]
fn command_dispatch() {
    assert_eq!(ProjectCmd::Create.dispatch(), ProjectAction::Create);
    assert_eq!(ProjectCmd::List.dispatch(), ProjectAction::List);
    assert_eq!(ProjectCmd::Default.dispatch(), ProjectAction::SetDefault);

    let update = TaskCmd::Update { id: 4, name: None, issue: Some(9), no_issue: false };
    assert_eq!(
        update.dispatch(),
        TaskAction::Update { id: TaskId(4), name: None, issue: Some(Some(9)) }
    );
    let remove = TaskCmd::Update { id: 4, name: None, issue: None, no_issue: true };
    assert_eq!(
        remove.dispatch(),
        TaskAction::Update { id: TaskId(4), name: None, issue: Some(None) }
    );
    let keep = TaskCmd::Update { id: 4, name: Some("n".to_string()), issue: None, no_issue: false };
    assert_eq!(
        keep.dispatch(),
        TaskAction::Update { id: TaskId(4), name: Some("n".to_string()), issue: None }
    );

    let cli = Cli { command: Command::Project(ProjectCmd::List) };
    assert_eq!(cli.dispatch(), Action::Project(ProjectAction::List));
    let cli = Cli {
        command: Command::Log(AddLogCmd {
            time: 60,
            date: DateArgGroup::default(),
            issue: None,
            name: None,
        }),
    };
    match cli.dispatch() {
        Action::Log(cmd) => assert_eq!(cmd.time, 60),
        other => panic!("unexpected action: {other:?}"),
    }
    let cli = Cli { command: Command::Show(wlog::cli::ShowCmd {
        by: LogFormat::Day,
        period: wlog::resolve::PeriodArgGroup {
            all: true,
            from: None,
            to: None,
            today: false,
            week: false,
        },
    }) };
    match cli.dispatch() {
        Action::Show(cmd) => assert_eq!(cmd.by, LogFormat::Day),
        other => panic!("unexpected action: {other:?}"),
    }
}

#[test]
fn schedule_command_dispatch() {
    let cmd = ScheduleCmd::SetWeekly {
        weekdays: vec![
            Weekday::Monday,
            Weekday::Tuesday,
            Weekday::Wednesday,
            Weekday::Thursday,
            Weekday::Friday,
        ],
        rigid: true,
    };
    match cmd.dispatch() {
        ScheduleAction::SetWeekly(w) => assert_eq!(w.0, 0b00011111),
        other => panic!("unexpected action: {other:?}"),
    }
    let cmd = ScheduleCmd::SetWeekly { weekdays: vec![Weekday::Saturday], rigid: false };
    match cmd.dispatch() {
        ScheduleAction::SetWeekly(w) => assert_eq!(w.0, 0b1010_0000),
        other => panic!("unexpected action: {other:?}"),
    }
    let d = Date { year: 2024, month: 12, day: 5 };
    assert_eq!(
        ScheduleCmd::Show { for_date: Some(d) }.dispatch(),
        ScheduleAction::ShowLogFor(d)
    );
    assert_eq!(
        ScheduleCmd::Show { for_date: None }.dispatch(),
        ScheduleAction::ShowActive
    );
}
