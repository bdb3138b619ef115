//! Work-log records and the aggregations reported over them.

use vstd::prelude::*;
use crate::date::Date;
use crate::tasks::TaskId;

verus! {

/// An inclusive range of dates used to select log entries.
#[derive(Debug, Clone, Copy, PartialEq, Eq, Structural)]
pub struct Period {
    pub from: Date,
    pub to: Date,
}

/// One recorded slice of work: a task, a date, and a duration in minutes.
#[derive(Debug, Clone, PartialEq, Eq)]
pub struct LogEntry {
    pub date: Date,
    pub task: TaskId,
    pub minutes: i64,
}

/// A log entry joined with its task's display data.
#[derive(Debug, Clone, PartialEq, Eq)]
pub struct LogEntryExpanded {
    pub task_id: TaskId,
    pub task_name: String,
    pub issue_number: Option<i32>,
    pub date: Date,
    pub minutes: i64,
}

/// Total minutes that entries of task `id` contribute to `s`.
pub open spec fn task_minutes(s: Seq<LogEntryExpanded>, id: TaskId) -> int
    decreases s.len(),
{
    if s.len() == 0 {
        0
    } else {
        task_minutes(s.drop_last(), id) + if s.last().task_id == id {
            s.last().minutes as int
        } else {
            0
        }
    }
}

/// Total minutes of all entries of `s`.
pub open spec fn minutes_total(s: Seq<LogEntryExpanded>) -> int
    decreases s.len(),
{
    if s.len() == 0 {
        0
    } else {
        minutes_total(s.drop_last()) + s.last().minutes
    }
}

/// The index of the first entry of task `id` in `s`, or `s.len()` when the
/// task has no entry.
pub open spec fn first_occurrence(s: Seq<LogEntryExpanded>, id: TaskId) -> int
    decreases s.len(),
{
    if s.len() == 0 {
        0
    } else {
        let f = first_occurrence(s.drop_last(), id);
        if f < s.len() - 1 {
            f
        } else if s.last().task_id == id {
            s.len() - 1
        } else {
            s.len() as int
        }
    }
}

/// `first_occurrence` names what it should: an index bearing the task, with
/// no earlier one.
pub proof fn lemma_first_occurrence_props(s: Seq<LogEntryExpanded>, id: TaskId)
    ensures
        0 <= first_occurrence(s, id) <= s.len(),
        first_occurrence(s, id) < s.len() ==> s[first_occurrence(s, id)].task_id == id,
        forall|k: int| 0 <= k < first_occurrence(s, id) ==> s[k].task_id != id,
    decreases s.len(),
{
    if s.len() > 0 {
        lemma_first_occurrence_props(s.drop_last(), id);
        assert(forall|k: int| 0 <= k < s.len() - 1 ==> s[k] == s.drop_last()[k]);
    }
}

proof fn lemma_task_minutes_absent(s: Seq<LogEntryExpanded>, id: TaskId)
    requires
        forall|k: int| 0 <= k < s.len() ==> s[k].task_id != id,
    ensures
        task_minutes(s, id) == 0,
    decreases s.len(),
{
    if s.len() > 0 {
        assert(forall|k: int| 0 <= k < s.len() - 1 ==> s.drop_last()[k] == s[k]);
        lemma_task_minutes_absent(s.drop_last(), id);
    }
}

/// Every entry's minutes lie in the storage range, so sums of any selection
/// stay within machine bounds.
pub open spec fn minutes_in_range(s: Seq<LogEntryExpanded>) -> bool {
    forall|k: int| 0 <= k < s.len() ==> -0x8000_0000 <= #[trigger] s[k].minutes <= 0x7fff_ffff
}

proof fn lemma_task_minutes_bound(s: Seq<LogEntryExpanded>, id: TaskId)
    requires
        minutes_in_range(s),
    ensures
        -0x8000_0000 * s.len() <= task_minutes(s, id) <= 0x8000_0000 * s.len(),
    decreases s.len(),
{
    if s.len() > 0 {
        assert(minutes_in_range(s.drop_last()));
        lemma_task_minutes_bound(s.drop_last(), id);
    }
}

proof fn lemma_minutes_total_bound(s: Seq<LogEntryExpanded>)
    requires
        minutes_in_range(s),
    ensures
        -0x8000_0000 * s.len() <= minutes_total(s) <= 0x8000_0000 * s.len(),
    decreases s.len(),
{
    if s.len() > 0 {
        assert(minutes_in_range(s.drop_last()));
        lemma_minutes_total_bound(s.drop_last());
    }
}

/// Sum the durations of all entries, in minutes.
pub fn total_minutes(entries: &Vec<LogEntryExpanded>) -> (r: i64)
    requires
        minutes_in_range(entries@),
        entries@.len() <= 0x8000_0000,
    ensures
        r as int == minutes_total(entries@),
{
    let mut total: i64 = 0;
    let mut i: usize = 0;
    while i < entries.len()
        invariant
            i <= entries@.len(),
            minutes_in_range(entries@),
            entries@.len() <= 0x8000_0000,
            total as int == minutes_total(entries@.take(i as int)),
        decreases entries@.len() - i,
    {
        proof {
            assert(minutes_in_range(entries@.take(i as int))) by {
                assert(forall|k: int|
                    0 <= k < i ==> entries@.take(i as int)[k] == entries@[k]);
            }
            lemma_minutes_total_bound(entries@.take(i as int));
            assert(entries@.take(i as int + 1).drop_last() =~= entries@.take(i as int));
        }
        total = total + entries[i].minutes;
        i = i + 1;
    }
    proof {
        assert(entries@.take(entries@.len() as int) =~= entries@);
    }
    total
}

/// Group entries by task, in order of each task's first appearance: one
/// output entry per task, carrying the first appearance's display fields and
/// the task's total minutes.
pub fn aggregate_by_task(entries: &Vec<LogEntryExpanded>) -> (r: Vec<LogEntryExpanded>)
    requires
        minutes_in_range(entries@),
        entries@.len() <= 0x8000_0000,
    ensures
        forall|a: int, b: int|
            0 <= a < b < r@.len() ==> r@[a].task_id != r@[b].task_id,
        forall|j: int|
            0 <= j < r@.len() ==> first_occurrence(entries@, #[trigger] r@[j].task_id)
                < entries@.len(),
        forall|id: TaskId|
            first_occurrence(entries@, id) < entries@.len() ==> exists|j: int|
                0 <= j < r@.len() && #[trigger] r@[j].task_id == id,
        forall|j: int|
            0 <= j < r@.len() ==> {
                let f = first_occurrence(entries@, #[trigger] r@[j].task_id);
                &&& r@[j].task_name == entries@[f].task_name
                &&& r@[j].issue_number == entries@[f].issue_number
                &&& r@[j].date == entries@[f].date
                &&& r@[j].minutes as int == task_minutes(entries@, r@[j].task_id)
            },
        forall|a: int, b: int|
            0 <= a < b < r@.len() ==> first_occurrence(entries@, #[trigger] r@[a].task_id)
                < first_occurrence(entries@, #[trigger] r@[b].task_id),
    {
    let n = entries.len();
    let mut acc: Vec<LogEntryExpanded> = Vec::new();
    let mut i: usize = 0;
    while i < n
        invariant
            i <= n,
            n == entries@.len(),
            n <= 0x8000_0000,
            minutes_in_range(entries@),
            forall|a: int, b: int|
                0 <= a < b < acc@.len() ==> acc@[a].task_id != acc@[b].task_id,
            forall|j: int|
                0 <= j < acc@.len() ==> first_occurrence(
                    entries@.take(i as int),
                    #[trigger] acc@[j].task_id,
                ) < i,
            forall|id: TaskId|
                first_occurrence(entries@.take(i as int), id) < i ==> exists|j: int|
                    0 <= j < acc@.len() && #[trigger] acc@[j].task_id == id,
            forall|j: int|
                0 <= j < acc@.len() ==> {
                    let f = first_occurrence(entries@.take(i as int), #[trigger] acc@[j].task_id);
                    &&& acc@[j].task_name == entries@[f].task_name
                    &&& acc@[j].issue_number == entries@[f].issue_number
                    &&& acc@[j].date == entries@[f].date
                    &&& acc@[j].minutes as int == task_minutes(
                        entries@.take(i as int),
                        acc@[j].task_id,
                    )
                },
            forall|a: int, b: int|
                0 <= a < b < acc@.len() ==> first_occurrence(
                    entries@.take(i as int),
                    #[trigger] acc@[a].task_id,
                ) < first_occurrence(entries@.take(i as int), #[trigger] acc@[b].task_id),
        decreases n - i,
    {
        proof {
            assert(entries@.take(i as int + 1).drop_last() =~= entries@.take(i as int));
            assert(minutes_in_range(entries@.take(i as int))) by {
                assert(forall|k: int|
                    0 <= k < i ==> entries@.take(i as int)[k] == entries@[k]);
            }
            lemma_first_occurrence_props(entries@.take(i as int), entries@[i as int].task_id);
        }
        let e = &entries[i];
        let ghost t0 = entries@.take(i as int);
        let ghost t1 = entries@.take(i as int + 1);
        let ghost eid = entries@[i as int].task_id;
        proof {
            assert(t1.drop_last() =~= t0);
            assert(t1.last() == entries@[i as int]);
            // Appending entry i leaves every earlier first occurrence alone.
            assert forall|id2: TaskId|
                first_occurrence(t0, id2) < i implies #[trigger] first_occurrence(t1, id2)
                == first_occurrence(t0, id2) by {
                lemma_first_occurrence_props(t0, id2);
            }
        }
        let mut found: Option<usize> = None;
        let mut j: usize = 0;
        while found.is_none() && j < acc.len()
            invariant
                j <= acc@.len(),
                found is None ==> forall|k: int| 0 <= k < j ==> acc@[k].task_id != e.task_id,
                found matches Some(f) ==> f < acc@.len() && acc@[f as int].task_id == e.task_id,
                e == entries@[i as int],
                i < n,
                n == entries@.len(),
            decreases acc@.len() - j + (if found is None {
                1int
            } else {
                0int
            }),
        {
            if acc[j].task_id.0 == e.task_id.0 {
                found = Some(j);
            } else {
                j = j + 1;
            }
        }
        proof {
            if found is None {
                assert(j == acc@.len());
            }
        }
        match found {
            Some(f) => {
                let ghost old_acc = acc@;
                proof {
                    lemma_task_minutes_bound(t0, eid);
                }
                let m = acc[f].minutes;
                acc[f].minutes = m + e.minutes;
                proof {
                    assert(acc@.len() == old_acc.len());
                    assert(forall|k: int| 0 <= k < acc@.len() && k != f ==> acc@[k] == old_acc[k]);
                    assert(acc@[f as int].task_id == eid);
                    assert(acc@[f as int].task_name == old_acc[f as int].task_name);
                    assert(acc@[f as int].issue_number == old_acc[f as int].issue_number);
                    assert(acc@[f as int].date == old_acc[f as int].date);
                    assert(acc@[f as int].minutes as int == old_acc[f as int].minutes
                        + entries@[i as int].minutes);
                    assert(forall|k: int|
                        0 <= k < acc@.len() ==> #[trigger] acc@[k].task_id
                            == old_acc[k].task_id);
                    assert forall|id2: TaskId|
                        first_occurrence(t1, id2) < i + 1 implies exists|j2: int|
                        0 <= j2 < acc@.len() && #[trigger] acc@[j2].task_id == id2 by {
                        lemma_first_occurrence_props(t0, id2);
                        if first_occurrence(t0, id2) < i {
                            let j2 = choose|j2: int|
                                0 <= j2 < old_acc.len() && #[trigger] old_acc[j2].task_id == id2;
                            assert(acc@[j2].task_id == id2);
                        } else {
                            assert(t1.last().task_id == id2);
                            assert(acc@[f as int].task_id == id2);
                        }
                    }
                    assert forall|j2: int| 0 <= j2 < acc@.len() implies {
                        let fj = first_occurrence(t1, #[trigger] acc@[j2].task_id);
                        &&& fj < i + 1
                        &&& acc@[j2].task_name == entries@[fj].task_name
                        &&& acc@[j2].issue_number == entries@[fj].issue_number
                        &&& acc@[j2].date == entries@[fj].date
                        &&& acc@[j2].minutes as int == task_minutes(t1, acc@[j2].task_id)
                    } by {
                        let idj = acc@[j2].task_id;
                        assert(old_acc[j2].task_id == idj);
                        assert(first_occurrence(t0, idj) < i);
                        assert(first_occurrence(t1, idj) == first_occurrence(t0, idj));
                        assert(task_minutes(t1, idj) == task_minutes(t0, idj) + (
                        if t1.last().task_id == idj {
                            t1.last().minutes as int
                        } else {
                            0
                        }));
                        if j2 != f {
                            assert(old_acc[j2].task_id != old_acc[f as int].task_id);
                            assert(idj != eid);
                        }
                    }
                }
            },
            None => {
                proof {
                    lemma_first_occurrence_props(t0, eid);
                    if first_occurrence(t0, eid) < i {
                        let j2 = choose|j2: int|
                            0 <= j2 < acc@.len() && #[trigger] acc@[j2].task_id == eid;
                        assert(false);
                    }
                    assert(first_occurrence(t0, eid) == i);
                    assert(first_occurrence(t1, eid) == i);
                    lemma_task_minutes_absent(t0, eid);
                    assert(task_minutes(t1, eid) == entries@[i as int].minutes);
                }
                let ghost old_acc = acc@;
                acc.push(
                    LogEntryExpanded {
                        task_id: e.task_id,
                        task_name: e.task_name.clone(),
                        issue_number: e.issue_number,
                        date: e.date,
                        minutes: e.minutes,
                    },
                );
                proof {
                    assert(acc@.len() == old_acc.len() + 1);
                    assert(forall|k: int| 0 <= k < old_acc.len() ==> acc@[k] == old_acc[k]);
                    assert(acc@[acc@.len() - 1].task_id == eid);
                    assert forall|id2: TaskId|
                        first_occurrence(t1, id2) < i + 1 implies exists|j2: int|
                        0 <= j2 < acc@.len() && #[trigger] acc@[j2].task_id == id2 by {
                        lemma_first_occurrence_props(t0, id2);
                        if first_occurrence(t0, id2) < i {
                            let j2 = choose|j2: int|
                                0 <= j2 < old_acc.len() && #[trigger] old_acc[j2].task_id == id2;
                            assert(acc@[j2].task_id == id2);
                        } else {
                            assert(t1.last().task_id == id2);
                            assert(acc@[acc@.len() - 1].task_id == id2);
                        }
                    }
                    assert forall|j2: int| 0 <= j2 < acc@.len() implies {
                        let fj = first_occurrence(t1, #[trigger] acc@[j2].task_id);
                        &&& fj < i + 1
                        &&& acc@[j2].task_name == entries@[fj].task_name
                        &&& acc@[j2].issue_number == entries@[fj].issue_number
                        &&& acc@[j2].date == entries@[fj].date
                        &&& acc@[j2].minutes as int == task_minutes(t1, acc@[j2].task_id)
                    } by {
                        let idj = acc@[j2].task_id;
                        if j2 < old_acc.len() {
                            assert(old_acc[j2].task_id == idj);
                            assert(first_occurrence(t0, idj) < i);
                            assert(first_occurrence(t1, idj) == first_occurrence(t0, idj));
                            assert(idj != eid);
                            assert(task_minutes(t1, idj) == task_minutes(t0, idj));
                        } else {
                            assert(idj == eid);
                            assert(first_occurrence(t1, idj) == i);
                            assert(acc@[j2].task_name == entries@[i as int].task_name);
                        }
                    }
                    assert forall|a: int, b: int|
                        0 <= a < b < acc@.len() implies first_occurrence(
                        t1,
                        #[trigger] acc@[a].task_id,
                    ) < first_occurrence(t1, #[trigger] acc@[b].task_id) by {
                        if b < old_acc.len() {
                            assert(first_occurrence(t0, acc@[a].task_id) < first_occurrence(
                                t0,
                                acc@[b].task_id,
                            ));
                        } else {
                            assert(acc@[b].task_id == eid);
                            assert(first_occurrence(t1, acc@[b].task_id) == i);
                            assert(first_occurrence(t0, acc@[a].task_id) < i);
                        }
                    }
                }
            },
        }
        i = i + 1;
    }
    proof {
        assert(entries@.take(n as int) =~= entries@);
    }
    acc
}

} // verus!
