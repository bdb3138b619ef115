//! Tasks, and the decisions of the task-acquisition flow.
//!
//! Acquiring the task a log entry belongs to alternates storage lookups with
//! decisions: which lookup the given issue number and name call for, and
//! what to do with the lookup's outcome. The decisions live here as pure
//! functions; the surrounding program runs the lookups and prompts.

use vstd::prelude::*;
use vstd::string::StringExecFns;

verus! {

/// Identifier of a task in storage.
#[derive(Debug, Clone, Copy, PartialEq, Eq, Structural, Hash)]
pub struct TaskId(pub i32);

/// A stored task: its identifier, display name, and optional issue number.
#[derive(Debug, Clone, PartialEq, Eq)]
pub struct Task {
    pub id: TaskId,
    pub name: String,
    pub issue: Option<i32>,
}

/// Which lookup the given issue number and name call for.
#[derive(Debug, Clone, PartialEq, Eq)]
pub enum TaskLookup {
    /// Nothing to look up: neither issue nor name was given.
    Nothing,
    /// Look the task up by its name.
    ByName(String),
    /// Look the task up by its issue number.
    ByIssue(i32),
    /// Look the task up by issue number and name together.
    ByIssueAndName(i32, String),
}

/// What to do once the lookup's outcome is in.
#[derive(Debug, Clone, PartialEq, Eq)]
pub enum TaskResolution {
    /// A matching task exists: use it.
    Use(TaskId),
    /// Create a task interactively, prefilled with the given issue number.
    CreateInteractive(Option<i32>),
    /// Create a task outright from the given name and issue number.
    Create { name: String, issue: Option<i32> },
}

/// The lookup that a given issue number and name call for.
pub fn plan_task_lookup(issue: &Option<i32>, name: &Option<String>) -> (r: TaskLookup)
    ensures
        r == (match (*issue, *name) {
            (Option::None, Option::None) => TaskLookup::Nothing,
            (Option::None, Option::Some(n)) => TaskLookup::ByName(n),
            (Option::Some(i), Option::None) => TaskLookup::ByIssue(i),
            (Option::Some(i), Option::Some(n)) => TaskLookup::ByIssueAndName(i, n),
        }),
{
    match (issue, name) {
        (None, None) => TaskLookup::Nothing,
        (None, Some(n)) => TaskLookup::ByName(n.clone()),
        (Some(i), None) => TaskLookup::ByIssue(*i),
        (Some(i), Some(n)) => TaskLookup::ByIssueAndName(*i, n.clone()),
    }
}

/// What the task-acquisition flow does with a lookup outcome: an existing
/// task is used as is; a missing one is created, interactively exactly when
/// no name was given.
pub fn resolve_task_lookup(issue: &Option<i32>, name: &Option<String>, found: &Option<
    TaskId,
>) -> (r: TaskResolution)
    ensures
        r == (match (*issue, *name) {
            (Option::None, Option::None) => TaskResolution::CreateInteractive(None),
            (Option::None, Option::Some(n)) => match *found {
                Option::Some(t) => TaskResolution::Use(t),
                Option::None => TaskResolution::Create { name: n, issue: None },
            },
            (Option::Some(i), Option::None) => match *found {
                Option::Some(t) => TaskResolution::Use(t),
                Option::None => TaskResolution::CreateInteractive(Some(i)),
            },
            (Option::Some(i), Option::Some(n)) => match *found {
                Option::Some(t) => TaskResolution::Use(t),
                Option::None => TaskResolution::Create { name: n, issue: Some(i) },
            },
        }),
{
    match (issue, name) {
        (None, None) => TaskResolution::CreateInteractive(None),
        (None, Some(n)) => match found {
            Some(t) => TaskResolution::Use(*t),
            None => TaskResolution::Create { name: n.clone(), issue: None },
        },
        (Some(i), None) => match found {
            Some(t) => TaskResolution::Use(*t),
            None => TaskResolution::CreateInteractive(Some(*i)),
        },
        (Some(i), Some(n)) => match found {
            Some(t) => TaskResolution::Use(*t),
            None => TaskResolution::Create { name: n.clone(), issue: Some(*i) },
        },
    }
}

/// How one character is escaped inside a `LIKE` pattern: the wildcard
/// characters and the escape character itself get a backslash.
pub open spec fn spec_like_escape_char(c: char) -> Seq<char> {
    if c == '\\' {
        seq!['\\', '\\']
    } else if c == '%' {
        seq!['\\', '%']
    } else if c == '_' {
        seq!['\\', '_']
    } else {
        seq![c]
    }
}

/// A search string escaped for use inside a `LIKE` pattern.
pub open spec fn spec_like_escaped(s: Seq<char>) -> Seq<char>
    decreases s.len(),
{
    if s.len() == 0 {
        Seq::empty()
    } else {
        spec_like_escaped(s.drop_last()) + spec_like_escape_char(s.last())
    }
}

/// The substring-search `LIKE` pattern for a query: the query with
/// wildcards escaped, wrapped in `%`.
pub open spec fn spec_like_pattern(s: Seq<char>) -> Seq<char> {
    seq!['%'] + spec_like_escaped(s) + seq!['%']
}

/// Build the `LIKE` pattern that finds tasks whose name contains `query`.
pub fn like_pattern(query: &str) -> (r: String)
    ensures
        r@ == spec_like_pattern(query@),
{
    let n = query.unicode_len();
    let mut s = String::new();
    s.append("%");
    proof {
        reveal_strlit("%");
        assert(query@.take(0) =~= Seq::<char>::empty());
        assert(s@ =~= seq!['%'] + spec_like_escaped(query@.take(0)));
    }
    let mut i: usize = 0;
    while i < n
        invariant
            i <= n,
            n == query@.len(),
            s@ == seq!['%'] + spec_like_escaped(query@.take(i as int)),
        decreases n - i,
    {
        let c = query.get_char(i);
        if c == '\\' {
            s.append("\\\\");
            proof {
                reveal_strlit("\\\\");
            }
        } else if c == '%' {
            s.append("\\%");
            proof {
                reveal_strlit("\\%");
            }
        } else if c == '_' {
            s.append("\\_");
            proof {
                reveal_strlit("\\_");
            }
        } else {
            let piece = query.substring_char(i, i + 1);
            s.append(piece);
            proof {
                assert(piece@ =~= seq![query@[i as int]]);
            }
        }
        proof {
            assert(query@.take(i as int + 1).drop_last() =~= query@.take(i as int));
            assert(s@ =~= seq!['%'] + spec_like_escaped(query@.take(i as int + 1)));
        }
        i = i + 1;
    }
    s.append("%");
    proof {
        assert(query@.take(n as int) =~= query@);
        assert(s@ =~= spec_like_pattern(query@));
    }
    s
}

} // verus!
