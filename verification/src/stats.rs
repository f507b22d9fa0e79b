//! Counts of a user's tasks, by category and by status.

use vstd::prelude::*;
use crate::task::Status;

verus! {

/// How many tasks of one category stand in one status.
#[derive(Debug)]
pub struct TaskByCategoryAndStatus {
    /// Title of the category.
    pub category: String,
    /// Name of the status, as the store spells it.
    pub status: String,
    pub count: i32,
}

/// How many tasks of one category stand in each status.
#[derive(Debug)]
pub struct TaskStatsByCategory {
    /// Title of the category.
    pub category: String,
    pub completed_count: i32,
    pub postponed_count: i32,
    pub partially_completed_count: i32,
}

/// The sum of the counts of the rows under `category` and `status`.
pub open spec fn total(
    rows: Seq<TaskByCategoryAndStatus>,
    category: Seq<char>,
    status: Seq<char>,
) -> int
    decreases rows.len(),
{
    if rows.len() == 0 {
        0
    } else {
        total(rows.drop_last(), category, status) + if rows.last().category@ == category
            && rows.last().status@ == status {
            rows.last().count as int
        } else {
            0
        }
    }
}

/// The categories of the rows, each once, in the order in which they first
/// occur.
pub open spec fn categories(rows: Seq<TaskByCategoryAndStatus>) -> Seq<Seq<char>>
    decreases rows.len(),
{
    if rows.len() == 0 {
        Seq::empty()
    } else {
        let front = categories(rows.drop_last());
        if front.contains(rows.last().category@) {
            front
        } else {
            front.push(rows.last().category@)
        }
    }
}

/// Whether `status` names one of the states of a task.
pub open spec fn is_status_name(status: Seq<char>) -> bool {
    ||| status == Status::Executada.spec_name()
    ||| status == Status::Adiada.spec_name()
    ||| status == Status::ParcialmenteExecutada.spec_name()
}

/// Whether every sum that adding up the rows one by one passes through lies
/// within the range of a count.
pub open spec fn sums_fit(rows: Seq<TaskByCategoryAndStatus>) -> bool {
    forall|n: int, category: Seq<char>, status: Seq<char>|
        0 <= n <= rows.len() && is_status_name(status) ==> i32::MIN <= #[trigger] total(
            rows.take(n),
            category,
            status,
        ) <= i32::MAX
}

/// Whether `stats` are the sums of `rows`: one entry for each category, in
/// the order in which the categories first occur, with the sum of the counts
/// under each status. Rows under a status of another name count for nothing.
pub open spec fn sums_up(
    stats: Seq<TaskStatsByCategory>,
    rows: Seq<TaskByCategoryAndStatus>,
) -> bool {
    &&& stats.len() == categories(rows).len()
    &&& forall|i: int|
        #![trigger stats[i]]
        0 <= i < stats.len() ==> {
            &&& stats[i].category@ == categories(rows)[i]
            &&& stats[i].completed_count == total(
                rows,
                stats[i].category@,
                Status::Executada.spec_name(),
            )
            &&& stats[i].postponed_count == total(
                rows,
                stats[i].category@,
                Status::Adiada.spec_name(),
            )
            &&& stats[i].partially_completed_count == total(
                rows,
                stats[i].category@,
                Status::ParcialmenteExecutada.spec_name(),
            )
        }
}

/// Rows under a category that is not among them sum to nothing.
proof fn lemma_absent_category(
    rows: Seq<TaskByCategoryAndStatus>,
    category: Seq<char>,
    status: Seq<char>,
)
    requires
        !categories(rows).contains(category),
    ensures
        total(rows, category, status) == 0,
    decreases rows.len(),
{
    if rows.len() > 0 {
        let front = categories(rows.drop_last());
        if front.contains(rows.last().category@) {
            lemma_absent_category(rows.drop_last(), category, status);
        } else {
            let all = front.push(rows.last().category@);
            assert(all[front.len() as int] == rows.last().category@);
            if front.contains(category) {
                let j = choose|j: int| 0 <= j < front.len() && front[j] == category;
                assert(all[j] == category);
            }
            lemma_absent_category(rows.drop_last(), category, status);
        }
    }
}

/// The three status names differ.
proof fn lemma_status_names_differ()
    ensures
        Status::Executada.spec_name() != Status::Adiada.spec_name(),
        Status::Executada.spec_name() != Status::ParcialmenteExecutada.spec_name(),
        Status::Adiada.spec_name() != Status::ParcialmenteExecutada.spec_name(),
{
    reveal_strlit("EXECUTADA");
    reveal_strlit("ADIADA");
    reveal_strlit("PARCIALMENTE_EXECUTADA");
    assert("EXECUTADA"@.len() == 9);
    assert("ADIADA"@.len() == 6);
    assert("PARCIALMENTE_EXECUTADA"@.len() == 22);
}

/// Position of the entry for `category`.
fn entry_of(stats: &Vec<TaskStatsByCategory>, category: &String) -> (found: Option<usize>)
    ensures
        match found {
            Some(j) => j < stats.len() && stats@[j as int].category@ == category@,
            None => forall|j: int| 0 <= j < stats.len() ==> (#[trigger] stats@[j]).category@
                != category@,
        },
{
    let mut j: usize = 0;
    while j < stats.len()
        invariant
            j <= stats.len(),
            forall|k: int| 0 <= k < j ==> (#[trigger] stats@[k]).category@ != category@,
        decreases stats.len() - j,
    {
        if stats[j].category == *category {
            return Some(j);
        }
        j += 1;
    }
    None
}

/// Adds up, for each category, the counts of its tasks under each status.
/// The result has one entry for each category, in the order in which the
/// categories first occur among `task_stats`; a row under a status of another
/// name adds to no count. `None` where a sum leaves the range of a count on
/// the way.
pub fn count_tasks_by_category_and_status(task_stats: &Vec<TaskByCategoryAndStatus>) -> (result:
    Option<Vec<TaskStatsByCategory>>)
    ensures
        result.is_some() <==> sums_fit(task_stats@),
        result matches Some(stats) ==> sums_up(stats@, task_stats@),
{
    let executada: String = Status::Executada.as_str().to_owned();
    let adiada: String = Status::Adiada.as_str().to_owned();
    let parcialmente: String = Status::ParcialmenteExecutada.as_str().to_owned();
    let mut stats: Vec<TaskStatsByCategory> = Vec::new();
    let mut i: usize = 0;
    while i < task_stats.len()
        invariant
            i <= task_stats.len(),
            executada@ == Status::Executada.spec_name(),
            adiada@ == Status::Adiada.spec_name(),
            parcialmente@ == Status::ParcialmenteExecutada.spec_name(),
            sums_up(stats@, task_stats@.take(i as int)),
            forall|n: int, category: Seq<char>, status: Seq<char>|
                0 <= n <= i && is_status_name(status) ==> i32::MIN <= #[trigger] total(
                    task_stats@.take(n),
                    category,
                    status,
                ) <= i32::MAX,
        decreases task_stats.len() - i,
    {
        let ghost before = task_stats@.take(i as int);
        let ghost after = task_stats@.take(i + 1);
        let ghost row = task_stats@[i as int];
        proof {
            lemma_status_names_differ();
            assert(after.drop_last() =~= before);
            assert(after.last() == row);
        }
        let ghost earlier = stats@;
        let at: usize = match entry_of(&stats, &task_stats[i].category) {
            Some(j) => {
                proof {
                    assert(categories(before)[j as int] == row.category@);
                    assert(categories(after) == categories(before));
                }
                j
            },
            None => {
                proof {
                    if categories(before).contains(row.category@) {
                        let j = choose|j: int|
                            0 <= j < categories(before).len() && categories(before)[j]
                                == row.category@;
                        assert(stats@[j].category@ == row.category@);
                    }
                    lemma_absent_category(before, row.category@, Status::Executada.spec_name());
                    lemma_absent_category(before, row.category@, Status::Adiada.spec_name());
                    lemma_absent_category(
                        before,
                        row.category@,
                        Status::ParcialmenteExecutada.spec_name(),
                    );
                }
                stats.push(
                    TaskStatsByCategory {
                        category: task_stats[i].category.clone(),
                        completed_count: 0,
                        postponed_count: 0,
                        partially_completed_count: 0,
                    },
                );
                stats.len() - 1
            },
        };
        let ghost entered = stats@;
        proof {
            assert(entered.len() == categories(after).len());
            assert(entered[at as int].category@ == row.category@);
            assert forall|j: int| 0 <= j < entered.len() implies {
                &&& (#[trigger] entered[j]).category@ == categories(after)[j]
                &&& entered[j].completed_count == total(
                    before,
                    entered[j].category@,
                    Status::Executada.spec_name(),
                )
                &&& entered[j].postponed_count == total(
                    before,
                    entered[j].category@,
                    Status::Adiada.spec_name(),
                )
                &&& entered[j].partially_completed_count == total(
                    before,
                    entered[j].category@,
                    Status::ParcialmenteExecutada.spec_name(),
                )
            } by {
                if j < earlier.len() {
                    assert(entered[j] == earlier[j]);
                    assert(earlier[j].category@ == categories(before)[j]);
                }
            }
        }
        let mut entry: TaskStatsByCategory = TaskStatsByCategory {
            category: stats[at].category.clone(),
            completed_count: stats[at].completed_count,
            postponed_count: stats[at].postponed_count,
            partially_completed_count: stats[at].partially_completed_count,
        };
        let count: i32 = task_stats[i].count;
        if task_stats[i].status == executada {
            match entry.completed_count.checked_add(count) {
                Some(sum) => {
                    entry.completed_count = sum;
                },
                None => {
                    proof {
                        assert(total(after, row.category@, Status::Executada.spec_name())
                            == entered[at as int].completed_count + count);
                        assert(task_stats@.take(i + 1) == after);
                    }
                    return None;
                },
            }
        } else if task_stats[i].status == adiada {
            match entry.postponed_count.checked_add(count) {
                Some(sum) => {
                    entry.postponed_count = sum;
                },
                None => {
                    proof {
                        assert(total(after, row.category@, Status::Adiada.spec_name())
                            == entered[at as int].postponed_count + count);
                        assert(task_stats@.take(i + 1) == after);
                    }
                    return None;
                },
            }
        } else if task_stats[i].status == parcialmente {
            match entry.partially_completed_count.checked_add(count) {
                Some(sum) => {
                    entry.partially_completed_count = sum;
                },
                None => {
                    proof {
                        assert(total(
                            after,
                            row.category@,
                            Status::ParcialmenteExecutada.spec_name(),
                        ) == entered[at as int].partially_completed_count + count);
                        assert(task_stats@.take(i + 1) == after);
                    }
                    return None;
                },
            }
        }
        stats.set(at, entry);
        proof {
            assert forall|j: int| 0 <= j < stats@.len() implies {
                &&& (#[trigger] stats@[j]).category@ == categories(after)[j]
                &&& stats@[j].completed_count == total(
                    after,
                    stats@[j].category@,
                    Status::Executada.spec_name(),
                )
                &&& stats@[j].postponed_count == total(
                    after,
                    stats@[j].category@,
                    Status::Adiada.spec_name(),
                )
                &&& stats@[j].partially_completed_count == total(
                    after,
                    stats@[j].category@,
                    Status::ParcialmenteExecutada.spec_name(),
                )
            } by {
                assert(entered[j].category@ == categories(after)[j]);
                if j != at {
                    assert(stats@[j] == entered[j]);
                    lemma_distinct_categories(after, j, at as int);
                    assert(entered[j].category@ != row.category@);
                } else {
                    assert(stats@[j].category@ == row.category@);
                }
            }
            assert forall|n: int, category: Seq<char>, status: Seq<char>|
                0 <= n <= i + 1 && is_status_name(status) implies i32::MIN <= #[trigger] total(
                task_stats@.take(n),
                category,
                status,
            ) <= i32::MAX by {
                if n == i + 1 {
                    assert(task_stats@.take(n) == after);
                    if category == row.category@ {
                    } else {
                        assert(total(after, category, status) == total(before, category, status));
                        assert(task_stats@.take(i as int) == before);
                    }
                }
            }
        }
        i += 1;
    }
    proof {
        assert(task_stats@.take(i as int) =~= task_stats@);
    }
    Some(stats)
}

/// No category stands twice among the categories of the rows.
proof fn lemma_distinct_categories(rows: Seq<TaskByCategoryAndStatus>, i: int, j: int)
    requires
        0 <= i < categories(rows).len(),
        0 <= j < categories(rows).len(),
        i != j,
    ensures
        categories(rows)[i] != categories(rows)[j],
    decreases rows.len(),
{
    if rows.len() > 0 {
        let front = categories(rows.drop_last());
        if front.contains(rows.last().category@) {
            lemma_distinct_categories(rows.drop_last(), i, j);
        } else {
            if i < front.len() && j < front.len() {
                lemma_distinct_categories(rows.drop_last(), i, j);
            } else if i < front.len() {
                assert(front.contains(front[i]));
            } else {
                assert(front.contains(front[j]));
            }
        }
    }
}

} // verus!
