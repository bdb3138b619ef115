//! The command model: what each parsed command line asks the program to do.
//!
//! Commands arrive as plain data; dispatching them is a pure decision that
//! maps each command to the storage or display action it calls for. The
//! surrounding program performs the action.

use vstd::prelude::*;
use crate::date::{Date, Time, Weekday};
use crate::parse::{ascii_lowercase_chars, chars_eq_str, spec_ascii_lowercase};
use crate::resolve::{DateArgGroup, PeriodArgGroup};
use crate::schedule::{encode_bits, WeekBasedSchedule};
use crate::tasks::TaskId;

verus! {

/// How log entries are grouped when shown.
#[derive(Debug, Clone, Copy, PartialEq, Eq, Structural)]
pub enum LogFormat {
    Day,
    Issue,
}

impl Default for LogFormat {
    /// Entries are grouped by day unless asked otherwise.
    fn default() -> (r: Self)
        ensures
            r == LogFormat::Day,
    {
        LogFormat::Day
    }
}

impl LogFormat {
    /// Parse a grouping name, in any letter case.
    pub fn parse(s: &str) -> (r: Result<LogFormat, &'static str>)
        ensures
            spec_ascii_lowercase(s@) == "issue"@ ==> r == Ok::<LogFormat, &'static str>(
                LogFormat::Issue,
            ),
            spec_ascii_lowercase(s@) == "day"@ ==> r == Ok::<LogFormat, &'static str>(
                LogFormat::Day,
            ),
            spec_ascii_lowercase(s@) != "issue"@ && spec_ascii_lowercase(s@) != "day"@ ==> r
                is Err,
    {
        proof {
            reveal_strlit("issue");
            reveal_strlit("day");
            assert("issue"@.len() == 5);
            assert("day"@.len() == 3);
        }
        let l = ascii_lowercase_chars(s);
        if chars_eq_str(&l, "issue") {
            Ok(LogFormat::Issue)
        } else if chars_eq_str(&l, "day") {
            Ok(LogFormat::Day)
        } else {
            Err("Unknown log format")
        }
    }
}

impl core::str::FromStr for LogFormat {
    type Err = &'static str;

    fn from_str(s: &str) -> Result<Self, Self::Err> {
        LogFormat::parse(s)
    }
}

/// Add one log entry: a duration in minutes, a date request, and the task
/// named by issue number and/or name.
#[derive(Debug, Clone, PartialEq, Eq)]
pub struct AddLogCmd {
    pub time: i64,
    pub date: DateArgGroup,
    pub issue: Option<i32>,
    pub name: Option<String>,
}

/// Display logged work, grouped as asked, over a period.
#[derive(Debug, Clone, Copy, PartialEq, Eq, Structural)]
pub struct ShowCmd {
    pub by: LogFormat,
    pub period: PeriodArgGroup,
}

/// Update the configuration file.
#[derive(Debug, Clone, PartialEq, Eq)]
pub enum ConfigCmd {
    /// Show the data path, or set a new one.
    DataPath { new_path: Option<String> },
    /// Show the day-change threshold, or set a new one.
    DayChangeThreshold { new_threshold: Option<Time> },
    /// Restore the default configuration.
    Reset,
}

/// Manage projects.
#[derive(Debug, Clone, Copy, PartialEq, Eq, Structural)]
pub enum ProjectCmd {
    /// Create a new project.
    Create,
    /// List all existing projects.
    List,
    /// Pick a default project.
    Default,
}

/// Show or set the work schedule of the default project.
#[derive(Debug, Clone, PartialEq, Eq)]
pub enum ScheduleCmd {
    /// Show the schedule: the frozen month of a date, or the active weekly
    /// pattern.
    Show { for_date: Option<Date> },
    /// Set the weekly pattern; `rigid` demands log entries on exact dates.
    SetWeekly { weekdays: Vec<Weekday>, rigid: bool },
}

/// Manage tasks.
#[derive(Debug, Clone, PartialEq, Eq)]
pub enum TaskCmd {
    /// Update an existing task.
    Update { id: i32, name: Option<String>, issue: Option<i32>, no_issue: bool },
    /// List all existing tasks.
    List,
    /// Search for a task containing the given substring.
    Search { query: String },
}

/// A whole parsed command line.
#[derive(Debug, Clone, PartialEq, Eq)]
pub enum Command {
    /// Add a new log entry.
    Log(AddLogCmd),
    /// Display logged work information.
    Show(ShowCmd),
    /// Manage tasks.
    Task(TaskCmd),
    /// Manage projects.
    Project(ProjectCmd),
    /// Update configuration.
    Config(ConfigCmd),
}

/// The command-line entry point's data.
#[derive(Debug, Clone, PartialEq, Eq)]
pub struct Cli {
    pub command: Command,
}

/// The storage action a project command calls for.
#[derive(Debug, Clone, Copy, PartialEq, Eq, Structural)]
pub enum ProjectAction {
    /// Create a project interactively.
    Create,
    /// List all projects.
    List,
    /// Pick a default project interactively.
    SetDefault,
}

/// The storage action a task command calls for.
#[derive(Debug, Clone, PartialEq, Eq)]
pub enum TaskAction {
    /// Update the task: `issue` is `None` to keep the issue number,
    /// `Some(None)` to remove it, `Some(Some(n))` to set it.
    Update { id: TaskId, name: Option<String>, issue: Option<Option<i32>> },
    /// List all tasks.
    List,
    /// Search tasks by substring.
    Search { query: String },
}

/// The action a schedule command calls for.
#[derive(Debug, Clone, Copy, PartialEq, Eq, Structural)]
pub enum ScheduleAction {
    /// Show the frozen month that contains the date.
    ShowLogFor(Date),
    /// Show the active weekly pattern.
    ShowActive,
    /// Persist this weekly pattern.
    SetWeekly(WeekBasedSchedule),
}

/// What each command asks the program to do.
#[derive(Debug, Clone, PartialEq, Eq)]
pub enum Action {
    Log(AddLogCmd),
    Show(ShowCmd),
    Task(TaskAction),
    Project(ProjectAction),
    Config(ConfigCmd),
}

/// The action each project command maps to.
pub open spec fn spec_project_action(cmd: ProjectCmd) -> ProjectAction {
    match cmd {
        ProjectCmd::Create => ProjectAction::Create,
        ProjectCmd::List => ProjectAction::List,
        ProjectCmd::Default => ProjectAction::SetDefault,
    }
}

/// The action each task command maps to. For an update, an explicit issue
/// number wins, `no_issue` alone removes the number, and neither leaves it
/// untouched.
pub open spec fn spec_task_action(cmd: TaskCmd) -> TaskAction {
    match cmd {
        TaskCmd::Update { id, name, issue, no_issue } => TaskAction::Update {
            id: TaskId(id),
            name,
            issue: match issue {
                Some(n) => Some(Some(n)),
                None => if no_issue {
                    Some(None)
                } else {
                    None
                },
            },
        },
        TaskCmd::List => TaskAction::List,
        TaskCmd::Search { query } => TaskAction::Search { query },
    }
}

/// The action a whole command line maps to.
pub open spec fn spec_cli_action(cmd: Command) -> Action {
    match cmd {
        Command::Log(c) => Action::Log(c),
        Command::Show(c) => Action::Show(c),
        Command::Task(c) => Action::Task(spec_task_action(c)),
        Command::Project(c) => Action::Project(spec_project_action(c)),
        Command::Config(c) => Action::Config(c),
    }
}

impl ProjectCmd {
    /// The storage action this project command calls for.
    pub fn dispatch(self) -> (r: ProjectAction)
        ensures
            r == spec_project_action(self),
    {
        match self {
            ProjectCmd::Create => ProjectAction::Create,
            ProjectCmd::List => ProjectAction::List,
            ProjectCmd::Default => ProjectAction::SetDefault,
        }
    }
}

impl TaskCmd {
    /// The storage action that each task command maps to.
    pub fn dispatch(self) -> (r: TaskAction)
        ensures
            r == spec_task_action(self),
    {
        match self {
            TaskCmd::Update { id, name, issue, no_issue } => {
                let merged: Option<Option<i32>> = match issue {
                    Some(n) => Some(Some(n)),
                    None => if no_issue {
                        Some(None)
                    } else {
                        None
                    },
                };
                TaskAction::Update { id: TaskId(id), name, issue: merged }
            },
            TaskCmd::List => TaskAction::List,
            TaskCmd::Search { query } => TaskAction::Search { query },
        }
    }
}

impl ScheduleCmd {
    /// The action this schedule command calls for; setting a schedule packs
    /// the weekly pattern, flexible unless `rigid` was asked.
    pub fn dispatch(self) -> (r: ScheduleAction)
        ensures
            self matches ScheduleCmd::Show { for_date: Some(d) } ==> r
                == ScheduleAction::ShowLogFor(d),
            self matches ScheduleCmd::Show { for_date: None } ==> r == ScheduleAction::ShowActive,
            self matches ScheduleCmd::SetWeekly { weekdays, rigid } ==> (r matches ScheduleAction::SetWeekly(w)
                && w.0 == (encode_bits(weekdays@) | (if rigid {
                0u8
            } else {
                0x80u8
            }))),
    {
        match self {
            ScheduleCmd::Show { for_date: Some(d) } => ScheduleAction::ShowLogFor(d),
            ScheduleCmd::Show { for_date: None } => ScheduleAction::ShowActive,
            ScheduleCmd::SetWeekly { weekdays, rigid } => ScheduleAction::SetWeekly(
                WeekBasedSchedule::new(weekdays.as_slice(), !rigid),
            ),
        }
    }
}

impl Cli {
    /// Route the parsed command line to the action it asks for.
    pub fn dispatch(self) -> (r: Action)
        ensures
            r == spec_cli_action(self.command),
    {
        match self.command {
            Command::Log(c) => Action::Log(c),
            Command::Show(c) => Action::Show(c),
            Command::Task(c) => Action::Task(c.dispatch()),
            Command::Project(c) => Action::Project(c.dispatch()),
            Command::Config(c) => Action::Config(c),
        }
    }
}

} // verus!
