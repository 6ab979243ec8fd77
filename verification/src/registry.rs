//! The task registry: turns a directory listing into the ordered task list.
//! Helper and configuration files are filtered out, each step's id is parsed
//! from its file name's digit prefix, the list is sorted by ascending id,
//! and each task gets its position `n` — a permutation of `0..len`.

use vstd::prelude::*;
use vstd::string::{StrSliceExecFns, StringExecFns};

use crate::parse::{parse_usize_prefix, spec_parse_usize_prefix};
use crate::task::{State, Task};

verus! {

broadcast use vstd::seq_lib::group_to_multiset_ensures;

/// Whether `s` ends with `suf`.
pub open spec fn spec_ends_with(s: Seq<char>, suf: Seq<char>) -> bool {
    s.len() >= suf.len() && s.subrange(s.len() - suf.len(), s.len() as int) == suf
}

/// Returns whether `s` ends with `suf`.
fn str_ends_with(s: &str, suf: &str) -> (b: bool)
    ensures
        b == spec_ends_with(s@, suf@),
{
    let n = s.unicode_len();
    let m = suf.unicode_len();
    if m > n {
        return false;
    }
    let mut i: usize = 0;
    while i < m
        invariant
            m <= n,
            n == s@.len(),
            m == suf@.len(),
            i <= m,
            forall|j: int| 0 <= j < i ==> s@[n - m + j] == suf@[j],
        decreases m - i,
    {
        if s.get_char(n - m + i) != suf.get_char(i) {
            proof {
                assert(s@.subrange(n - m, n as int)[i as int] == s@[n - m + i]);
            }
            return false;
        }
        i = i + 1;
    }
    proof {
        assert(s@.subrange(n - m, n as int) =~= suf@);
    }
    true
}

/// Entries that are not steps: editor backups, configuration files, and
/// hidden files.
pub open spec fn spec_excluded(name: Seq<char>) -> bool {
    ||| spec_ends_with(name, "~"@)
    ||| spec_ends_with(name, ".conf"@)
    ||| spec_ends_with(name, ".json"@)
    ||| (name.len() > 0 && name[0] == '.')
}

/// Returns whether the named entry is filtered out of the task list.
fn excluded(name: &str) -> (b: bool)
    ensures
        b == spec_excluded(name@),
{
    if str_ends_with(name, "~") {
        return true;
    }
    if str_ends_with(name, ".conf") {
        return true;
    }
    if str_ends_with(name, ".json") {
        return true;
    }
    if !name.is_empty() && name.get_char(0) == '.' {
        return true;
    }
    false
}

/// The directory entries that become tasks, in listing order. An entry is a
/// `(file name, path)` pair.
pub open spec fn spec_kept(entries: Seq<(String, String)>) -> Seq<(String, String)>
    decreases entries.len(),
{
    if entries.len() == 0 {
        Seq::empty()
    } else {
        let rest = spec_kept(entries.drop_last());
        if !spec_excluded(entries.last().0@) {
            rest.push(entries.last())
        } else {
            rest
        }
    }
}

/// The task a kept entry parses to, before sorting: position not yet
/// assigned, id from the name's digit prefix, pending.
pub open spec fn spec_entry_task(e: (String, String)) -> Task {
    Task {
        n: 0,
        id: spec_parse_usize_prefix(e.0@).unwrap(),
        name: e.0,
        cmd: e.1,
        state: State::Pending,
    }
}

/// The same task with its position cleared, for comparisons that ignore
/// the assigned order.
pub open spec fn spec_clear_n(t: Task) -> Task {
    Task { n: 0, ..t }
}

/// The name of the first kept entry whose file name does not start with a
/// number, if any.
pub open spec fn spec_first_unnumbered(entries: Seq<(String, String)>) -> Option<Seq<char>>
    decreases entries.len(),
{
    if entries.len() == 0 {
        None
    } else if !spec_excluded(entries[0].0@) && spec_parse_usize_prefix(entries[0].0@) is None {
        Some(entries[0].0@)
    } else {
        spec_first_unnumbered(entries.drop_first())
    }
}

/// Sorts tasks by ascending id, keeping exactly the same tasks.
fn sort_tasks_by_id(v: Vec<Task>) -> (r: Vec<Task>)
    ensures
        r@.len() == v@.len(),
        r@.to_multiset() == v@.to_multiset(),
        forall|i: int, j: int| 0 <= i < j < r@.len() ==> r@[i].id <= r@[j].id,
        forall|x: Task| r@.contains(x) ==> v@.contains(x),
{
    let mut out: Vec<Task> = Vec::new();
    let mut i: usize = 0;
    proof {
        assert(out@ =~= v@.subrange(0, 0));
    }
    while i < v.len()
        invariant
            i <= v@.len(),
            out@.len() == i,
            out@.to_multiset() == v@.subrange(0, i as int).to_multiset(),
            forall|a: int, b: int| 0 <= a < b < out@.len() ==> out@[a].id <= out@[b].id,
        decreases v@.len() - i,
    {
        let t = v[i].snapshot();
        let mut pos: usize = 0;
        while pos < out.len() && out[pos].id <= t.id
            invariant
                pos <= out@.len(),
                forall|k: int| 0 <= k < pos ==> out@[k].id <= t.id,
            decreases out@.len() - pos,
        {
            pos = pos + 1;
        }
        proof {
            assert(v@.subrange(0, i + 1).drop_last() =~= v@.subrange(0, i as int));
            assert(v@.subrange(0, i + 1).last() == v@[i as int]);
            assert(v@.subrange(0, i + 1) =~= v@.subrange(0, i as int).push(v@[i as int]));
            assert(v@.subrange(0, i as int).push(v@[i as int]).to_multiset() == v@.subrange(
                0,
                i as int,
            ).to_multiset().insert(v@[i as int]));
        }
        let ghost out0 = out@;
        out.insert(pos, t);
        proof {
            assert(out@ == out0.insert(pos as int, t));
            assert(out0.insert(pos as int, t).to_multiset() == out0.to_multiset().insert(t));
            assert forall|a: int, b: int| 0 <= a < b < out@.len() implies out@[a].id
                <= out@[b].id by {
                if b < pos {
                } else if a >= pos + 1 {
                    assert(out@[a] == out0[a - 1] && out@[b] == out0[b - 1]);
                } else if a < pos && b == pos {
                    assert(out@[a] == out0[a]);
                } else if a == pos && b > pos {
                    assert(out@[b] == out0[b - 1]);
                    assert(out0[pos as int].id > t.id);
                } else {
                    assert(out@[a] == out0[a] && out@[b] == out0[b - 1]);
                    assert(out0[pos as int].id > t.id);
                }
            }
        }
        i = i + 1;
    }
    proof {
        assert(v@.subrange(0, v@.len() as int) =~= v@);
        assert forall|x: Task| out@.contains(x) implies v@.contains(x) by {
            assert(out@.to_multiset().count(x) > 0);
            assert(v@.to_multiset().count(x) > 0);
        }
    }
    out
}

/// Builds the ordered task list out of a directory's entries, each a
/// `(file name, path)` pair in listing order.
///
/// Succeeds exactly when every kept entry's name starts with a number that
/// fits; the first offender names the error. On success the result holds
/// exactly the kept entries as pending tasks, sorted by ascending id, with
/// `n` running `0, 1, 2, ...` in list order.
pub fn build_tasks(entries: Vec<(String, String)>) -> (r: Result<Vec<Task>, String>)
    ensures
        r is Ok <==> spec_first_unnumbered(entries@) is None,
        r matches Err(m) ==> m@ == "step file name doesn't start with a number: "@
            + spec_first_unnumbered(entries@).unwrap(),
        r matches Ok(ts) ==> {
            &&& ts@.len() == spec_kept(entries@).len()
            &&& forall|i: int| 0 <= i < ts@.len() ==> (#[trigger] ts@[i]).n == i
            &&& forall|i: int| 0 <= i < ts@.len() ==> (#[trigger] ts@[i]).state is Pending
            &&& forall|i: int|
                0 <= i < ts@.len() ==> spec_parse_usize_prefix((#[trigger] ts@[i]).name@) == Some(
                    ts@[i].id,
                )
            &&& forall|i: int, j: int| 0 <= i < j < ts@.len() ==> ts@[i].id <= ts@[j].id
            &&& ts@.map_values(|t: Task| spec_clear_n(t)).to_multiset() == spec_kept(
                entries@,
            ).map_values(|e: (String, String)| spec_entry_task(e)).to_multiset()
        },
{
    let mut tasks0: Vec<Task> = Vec::new();
    let mut i: usize = 0;
    proof {
        assert(entries@.skip(0) =~= entries@);
        assert(tasks0@ =~= spec_kept(entries@.subrange(0, 0)).map_values(
            |e: (String, String)| spec_entry_task(e),
        ));
    }
    while i < entries.len()
        invariant
            i <= entries@.len(),
            spec_first_unnumbered(entries@) == spec_first_unnumbered(entries@.skip(i as int)),
            tasks0@ == spec_kept(entries@.subrange(0, i as int)).map_values(
                |e: (String, String)| spec_entry_task(e),
            ),
            forall|j: int|
                0 <= j < tasks0@.len() ==> spec_parse_usize_prefix(
                    (#[trigger] tasks0@[j]).name@,
                ) == Some(tasks0@[j].id),
        decreases entries@.len() - i,
    {
        proof {
            assert(entries@.skip(i as int).drop_first() =~= entries@.skip(i + 1));
            assert(entries@.skip(i as int)[0] == entries@[i as int]);
            assert(entries@.subrange(0, i + 1).drop_last() =~= entries@.subrange(0, i as int));
            assert(entries@.subrange(0, i + 1).last() == entries@[i as int]);
        }
        let name = entries[i].0.clone();
        let cmd = entries[i].1.clone();
        if !excluded(name.as_str()) {
            match parse_usize_prefix(name.as_str()) {
                Some(id) => {
                    tasks0.push(Task { n: 0, id, name, cmd, state: State::Pending });
                    proof {
                        assert(tasks0@ =~= spec_kept(entries@.subrange(0, i + 1)).map_values(
                            |e: (String, String)| spec_entry_task(e),
                        ));
                    }
                },
                None => {
                    let mut m = String::new();
                    m.append("step file name doesn't start with a number: ");
                    m.append(name.as_str());
                    proof {
                        assert(m@ =~= "step file name doesn't start with a number: "@ + name@);
                    }
                    return Err(m);
                },
            }
        } else {
            proof {
                assert(tasks0@ =~= spec_kept(entries@.subrange(0, i + 1)).map_values(
                    |e: (String, String)| spec_entry_task(e),
                ));
            }
        }
        i = i + 1;
    }
    proof {
        assert(entries@.subrange(0, entries@.len() as int) =~= entries@);
        assert(entries@.skip(i as int).len() == 0);
    }
    let ghost tasks0_view = tasks0@;
    let sorted = sort_tasks_by_id(tasks0);
    let ghost sorted_view = sorted@;
    proof {
        assert forall|j: int| 0 <= j < sorted_view.len() implies {
            &&& (#[trigger] sorted_view[j]).n == 0
            &&& sorted_view[j].state is Pending
            &&& spec_parse_usize_prefix(sorted_view[j].name@) == Some(sorted_view[j].id)
        } by {
            assert(sorted_view.contains(sorted_view[j]));
            assert(tasks0_view.contains(sorted_view[j]));
            let w = choose|w: int| 0 <= w < tasks0_view.len() && tasks0_view[w] == sorted_view[j];
            let g = |e: (String, String)| spec_entry_task(e);
            assert(tasks0_view[w] == spec_kept(entries@).map_values(g)[w]);
            assert(tasks0_view[w] == spec_entry_task(spec_kept(entries@)[w]));
        }
    }
    let mut out = sorted;
    let mut k: usize = 0;
    while k < out.len()
        invariant
            k <= out@.len(),
            out@.len() == sorted_view.len(),
            forall|j: int|
                0 <= j < k ==> #[trigger] out@[j] == (Task {
                    n: j as usize,
                    ..sorted_view[j]
                }),
            forall|j: int| k <= j < out@.len() ==> #[trigger] out@[j] == sorted_view[j],
        decreases out@.len() - k,
    {
        let t = out[k].snapshot();
        out.set(k, Task { n: k, id: t.id, name: t.name, cmd: t.cmd, state: t.state });
        k = k + 1;
    }
    proof {
        let f = |t: Task| spec_clear_n(t);
        let g = |e: (String, String)| spec_entry_task(e);
        assert(out@.map_values(f) =~= sorted_view);
        assert(out@.map_values(f).to_multiset() == tasks0_view.to_multiset());
        assert(tasks0_view == spec_kept(entries@).map_values(g));
        assert forall|i2: int| 0 <= i2 < out@.len() implies {
            &&& (#[trigger] out@[i2]).n == i2
            &&& out@[i2].state is Pending
            &&& spec_parse_usize_prefix(out@[i2].name@) == Some(out@[i2].id)
            &&& out@[i2].id == sorted_view[i2].id
        } by {
            assert(out@[i2] == (Task { n: i2 as usize, ..sorted_view[i2] }));
        }
        assert(out@.len() == spec_kept(entries@).len()) by {
            assert(spec_kept(entries@).map_values(g).len() == spec_kept(entries@).len());
        }
    }
    Ok(out)
}

/// With every id distinct — as ids of loaded steps are — the list ascends
/// strictly: positions `0..len` in ascending id order.
pub proof fn lemma_run_order(ts: Seq<Task>)
    requires
        forall|i: int, j: int| 0 <= i < j < ts.len() ==> ts[i].id <= ts[j].id,
        forall|i: int, j: int|
            0 <= i < ts.len() && 0 <= j < ts.len() && i != j ==> ts[i].id != ts[j].id,
    ensures
        forall|i: int, j: int| 0 <= i < j < ts.len() ==> ts[i].id < ts[j].id,
{
}

} // verus!
