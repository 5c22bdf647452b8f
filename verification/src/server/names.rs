use vstd::prelude::*;

use super::conf::{
    all_ticked, called, extended, fresh, has_name, locate, materialized, reduced,
    unknown_to, with_proc, TaskmasterView,
};
use super::loop_exec::{spawn_for, ticked, ReportView};
use super::proc::ProcView;
use super::task::TaskView;
use super::tool::{decimal, digit_char, lemma_first_index, n_name_spec};
use super::yaml::Node;

verus! {

/// Whether the character writes a decimal digit.
pub open spec fn is_digit(c: char) -> bool {
    c == '0' || c == '1' || c == '2' || c == '3' || c == '4' || c == '5' || c == '6' || c == '7'
        || c == '8' || c == '9'
}

/// The decimal notation of a number holds digits only, and at least one;
/// from ten on it holds two or more.
pub proof fn lemma_decimal_digits(n: nat)
    ensures
        decimal(n).len() >= 1,
        n >= 10 ==> decimal(n).len() >= 2,
        forall|i: int| 0 <= i < decimal(n).len() ==> is_digit(#[trigger] decimal(n)[i]),
    decreases n,
{
    if n >= 10 {
        lemma_decimal_digits(n / 10);
    }
}

/// Different numbers are written differently.
pub proof fn lemma_decimal_injective(a: nat, b: nat)
    requires
        decimal(a) == decimal(b),
    ensures
        a == b,
    decreases a,
{
    lemma_decimal_digits(a);
    lemma_decimal_digits(b);
    if a < 10 && b < 10 {
        assert(decimal(a)[0] == digit_char(a as int));
    } else if a >= 10 && b >= 10 {
        let da = decimal(a / 10).push(digit_char((a % 10) as int));
        let db = decimal(b / 10).push(digit_char((b % 10) as int));
        assert(da.last() == digit_char((a % 10) as int));
        assert(da.drop_last() =~= decimal(a / 10));
        assert(db.drop_last() =~= decimal(b / 10));
        lemma_decimal_injective(a / 10, b / 10);
    }
}

/// The name of a replica tells its program and its number: different
/// programs or different numbers give different names.
pub proof fn lemma_n_name_injective(a: Seq<char>, i: int, b: Seq<char>, j: int)
    requires
        0 <= i,
        0 <= j,
        n_name_spec(a, i) == n_name_spec(b, j),
    ensures
        a == b,
        i == j,
{
    let da = decimal(i as nat);
    let db = decimal(j as nat);
    let s = n_name_spec(a, i);
    let t = n_name_spec(b, j);
    lemma_decimal_digits(i as nat);
    lemma_decimal_digits(j as nat);
    assert(s.len() == a.len() + 1 + da.len());
    if da.len() < db.len() {
        assert(s[a.len() as int] == '_');
    } else if db.len() < da.len() {
        assert(t[b.len() as int] == '_');
    } else {
        assert(a =~= s.take(a.len() as int));
        assert(da =~= s.skip((a.len() + 1) as int));
        assert(db =~= t.skip((b.len() + 1) as int));
        lemma_decimal_injective(i as nat, j as nat);
    }
}

/// The slots of the program bear its name and their numbers.
pub open spec fn numbered(t: TaskView) -> bool {
    &&& t.file.name is Some
    &&& forall|j: int|
        0 <= j < t.procs.len() ==> (#[trigger] t.procs[j]).name == Some(n_name_spec(t.label(), j))
}

/// No two programs of the list share a name.
pub open spec fn distinct_programs(tasks: Seq<TaskView>) -> bool {
    forall|i: int, j: int|
        0 <= i < j < tasks.len() ==> (#[trigger] tasks[i]).file.name != (#[trigger] tasks[j]).file.name
}

/// Every program has a name of its own, and its slots bear that name and
/// their numbers.
pub open spec fn well_named(tasks: Seq<TaskView>) -> bool {
    &&& forall|i: int| 0 <= i < tasks.len() ==> numbered(#[trigger] tasks[i])
    &&& distinct_programs(tasks)
}

/// In a registry whose programs are well named every slot has a name of
/// its own.
pub proof fn lemma_slot_names_unique(
    tasks: Seq<TaskView>,
    i1: int,
    j1: int,
    i2: int,
    j2: int,
)
    requires
        well_named(tasks),
        0 <= i1 < tasks.len(),
        0 <= j1 < tasks[i1].procs.len(),
        0 <= i2 < tasks.len(),
        0 <= j2 < tasks[i2].procs.len(),
        tasks[i1].procs[j1].name == tasks[i2].procs[j2].name,
    ensures
        i1 == i2,
        j1 == j2,
{
    lemma_n_name_injective(tasks[i1].label(), j1, tasks[i2].label(), j2);
}

/// A list keeps all its items if each of them is one to keep.
pub proof fn lemma_filter_keeps_all<A>(s: Seq<A>, keep: spec_fn(A) -> bool)
    requires
        forall|i: int| 0 <= i < s.len() ==> keep(#[trigger] s[i]),
    ensures
        s.filter(keep) == s,
    decreases s.len(),
{
    reveal(Seq::filter);
    if s.len() > 0 {
        lemma_filter_keeps_all(s.drop_last(), keep);
    }
}

/// Programs that are well named stay so when some of them are dropped.
pub proof fn lemma_filter_keeps_names(tasks: Seq<TaskView>, keep: spec_fn(TaskView) -> bool)
    requires
        well_named(tasks),
    ensures
        well_named(tasks.filter(keep)),
        forall|k: int|
            0 <= k < tasks.filter(keep).len() ==> tasks.contains(#[trigger] tasks.filter(keep)[k]),
    decreases tasks.len(),
{
    reveal(Seq::filter);
    if tasks.len() > 0 {
        lemma_filter_keeps_names(tasks.drop_last(), keep);
    }
}

/// A program that gets its slots under its own name has them numbered.
pub proof fn lemma_commanded_numbered(t: TaskView)
    requires
        t.file.name is Some,
        t.procs.len() == 0,
    ensures
        numbered(t.commanded(t.label())),
        t.commanded(t.label()).file.name == t.file.name,
{
}

/// The programs that are set up from a list of programs without slots
/// are well named, and bear names of the list.
pub proof fn lemma_materialized_well_named(tasks: Seq<TaskView>)
    requires
        forall|i: int| 0 <= i < tasks.len() ==> (#[trigger] tasks[i]).procs.len() == 0,
    ensures
        well_named(materialized(tasks)),
    decreases tasks.len(),
{
    if tasks.len() > 0 {
        let head = materialized(tasks.drop_last());
        let t = tasks.last();
        lemma_materialized_well_named(tasks.drop_last());
        if !(t.file.name is None || has_name(head, t.file.name)) {
            lemma_commanded_numbered(t);
            lemma_first_index(head, called(t.file.name));
        }
    }
}

/// The registry that a configuration describes is well named once its
/// programs are set up.
pub proof fn lemma_described_well_named(path: Seq<char>, raw: Seq<char>, ppid: i32, doc: Option<Node>)
    ensures
        well_named(fresh(path, raw, ppid, doc).commanded().tasks),
{
    lemma_materialized_well_named(fresh(path, raw, ppid, doc).tasks);
}

/// Start, stop and restart requests leave every name as it is.
pub proof fn lemma_requests_keep_names(
    tm: TaskmasterView,
    name: Seq<char>,
    reports: Seq<ReportView>,
    now: u64,
)
    requires
        well_named(tm.tasks),
    ensures
        well_named(tm.started(name, reports, now).tasks),
        well_named(tm.stopped(name, now).tasks),
        well_named(tm.restarted(name, reports, now).tasks),
{
    super::laws::lemma_locate(tm.tasks, name);
    match locate(tm.tasks, name) {
        Some(at) => {
            let p = tm.slot(at);
            let spawned = spawn_for(reports, Some(name));
            lemma_renamed_slot(tm.tasks, at, p.start(spawned, now));
            lemma_renamed_slot(tm.tasks, at, p.stop(now));
            lemma_renamed_slot(tm.tasks, at, p.restart(spawned, now));
        },
        None => {},
    }
}

/// Programs stay well named when one slot is replaced by one of the same name.
pub proof fn lemma_renamed_slot(tasks: Seq<TaskView>, at: (int, int), p: ProcView)
    requires
        well_named(tasks),
        0 <= at.0 < tasks.len(),
        0 <= at.1 < tasks[at.0].procs.len(),
        p.name == tasks[at.0].procs[at.1].name,
    ensures
        well_named(with_proc(tasks, at, p)),
{
}

/// A tick of the reconciliation loop leaves a program that is numbered
/// with all its slots and their names.
pub proof fn lemma_tick_keeps_numbers(
    t: TaskView,
    reports: Seq<ReportView>,
    now: u64,
    stamp: Seq<char>,
)
    requires
        numbered(t),
    ensures
        numbered(t.ticked(reports, now, stamp)),
        t.ticked(reports, now, stamp).file.name == t.file.name,
        t.ticked(reports, now, stamp).procs == ticked(t.procs, t.file, reports, now, stamp),
{
    lemma_filter_keeps_all(
        ticked(t.procs, t.file, reports, now, stamp),
        |p: ProcView| !p.placeholder(),
    );
}

/// A tick of the reconciliation loop keeps the registry well named.
pub proof fn lemma_sweep_keeps_names(
    tm: TaskmasterView,
    reports: Seq<ReportView>,
    now: u64,
    stamp: Seq<char>,
)
    requires
        well_named(tm.tasks),
    ensures
        well_named(tm.swept(reports, now, stamp).tasks),
{
    let stepped = all_ticked(tm.tasks, reports, now, stamp);
    assert forall|i: int| 0 <= i < stepped.len() implies numbered(#[trigger] stepped[i]) by {
        lemma_tick_keeps_numbers(tm.tasks[i], reports, now, stamp);
    }
    lemma_filter_keeps_names(stepped, |t: TaskView| !t.finished());
}

/// Starting or stopping the slots of every program keeps the registry
/// well named.
pub proof fn lemma_autostart_keeps_names(tm: TaskmasterView, reports: Seq<ReportView>, now: u64)
    requires
        well_named(tm.tasks),
    ensures
        well_named(tm.autostarted(reports, now).tasks),
{
}

/// A program that takes up what a new configuration says of it keeps its
/// name and stays numbered.
pub proof fn lemma_taken_up_numbered(t: TaskView, new: Seq<TaskView>, now: u64)
    requires
        numbered(t),
    ensures
        reduced(new, now)(t).file.name == t.file.name,
        numbered(reduced(new, now)(t)),
        extended(new)(reduced(new, now)(t)).file.name == t.file.name,
        numbered(extended(new)(reduced(new, now)(t))),
{
    lemma_first_index(new, called(t.file.name));
}

/// Taking up a new configuration keeps the registry well named: the
/// programs keep their names, the slots that they get are numbered on,
/// and the programs that are added bear names that are new.
pub proof fn lemma_merge_keeps_names(tm: TaskmasterView, raw: Seq<char>, doc: Option<Node>, now: u64)
    requires
        well_named(tm.tasks),
    ensures
        well_named(tm.merged(raw, doc, now).tasks),
{
    if tm.takes_up(raw, doc) {
        let new = tm.described(raw, doc->0).tasks;
        lemma_described_well_named(tm.path, raw, tm.ppid, doc);
        let cur1 = tm.tasks.map_values(reduced(new, now));
        let cur2 = cur1.map_values(extended(new));
        let fits = unknown_to(cur1);
        let pushed = new.filter(fits);
        let all = cur2 + pushed;
        lemma_filter_keeps_names(new, fits);
        assert forall|i: int| 0 <= i < cur2.len() implies numbered(#[trigger] cur2[i])
            && cur2[i].file.name == tm.tasks[i].file.name && cur1[i].file.name
            == tm.tasks[i].file.name by {
            lemma_taken_up_numbered(tm.tasks[i], new, now);
        }
        assert forall|i: int, j: int| 0 <= i < j < all.len() implies (#[trigger] all[i]).file.name
            != (#[trigger] all[j]).file.name by {
            if i < cur2.len() <= j {
                let n = pushed[j - cur2.len()];
                new.lemma_filter_pred(fits, j - cur2.len());
                lemma_first_index(cur1, called(n.file.name));
            }
        }
    }
}

/// Choosing log files leaves every name as it is.
pub proof fn lemma_files_keep_names(tm: TaskmasterView, time: Seq<char>)
    requires
        well_named(tm.tasks),
    ensures
        well_named(tm.with_files(time).tasks),
{
}

/// A reload keeps the registry well named.
pub proof fn lemma_reload_keeps_names(
    tm: TaskmasterView,
    raw: Seq<char>,
    doc: Option<Node>,
    reports: Seq<ReportView>,
    now: u64,
    time: Seq<char>,
)
    requires
        well_named(tm.tasks),
    ensures
        well_named(tm.reloaded(raw, doc, reports, now, time).tasks),
{
    if tm.takes_up(raw, doc) {
        lemma_merge_keeps_names(tm, raw, doc, now);
        lemma_files_keep_names(tm.merged(raw, doc, now), time);
        lemma_autostart_keeps_names(tm.merged(raw, doc, now).with_files(time), reports, now);
    }
}

} // verus!
