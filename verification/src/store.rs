//! The list of tasks in memory, and the four operations that change it.
//!
//! A task's id is its place in the list, counted from one. Every operation
//! here is defined on any list, and keeps the ids in step with the places
//! wherever they were in step before.

use vstd::prelude::*;
use crate::error::StoreError;
use crate::text::{is_trimmed, lemma_trimmed_is_trimmed, trim, trimmed};
use crate::todo::{Todo, TodoView};

verus! {

/// Whether every task's id is its place in the list, counted from one.
pub open spec fn ids_contiguous(s: Seq<TodoView>) -> bool {
    forall|i: int| 0 <= i < s.len() ==> (#[trigger] s[i]).id == i + 1
}

/// Whether some task of the list has this id.
pub open spec fn holds(s: Seq<TodoView>, id: nat) -> bool {
    exists|i: int| 0 <= i < s.len() && (#[trigger] s[i]).id == id
}

/// Whether some task of the list has this id and is still to be done.
pub open spec fn holds_open(s: Seq<TodoView>, id: nat) -> bool {
    exists|i: int| 0 <= i < s.len() && (#[trigger] s[i]).id == id && !s[i].completed
}

/// The list with a new task at its end: the next id, the trimmed
/// description, not done.
pub open spec fn created(s: Seq<TodoView>, input: Seq<char>) -> Seq<TodoView> {
    s.push(TodoView { id: s.len() + 1, task: trimmed(input), completed: false })
}

/// The list with the task of this id marked as done.
pub open spec fn completed(s: Seq<TodoView>, id: nat) -> Seq<TodoView> {
    Seq::new(
        s.len(),
        |i: int|
            if s[i].id == id {
                TodoView { id: s[i].id, task: s[i].task, completed: true }
            } else {
                s[i]
            },
    )
}

/// Whether a new description would change the task: it must have this id, and
/// the trimmed description must be nonempty and differ from the present one.
pub open spec fn rewords(t: TodoView, id: nat, input: Seq<char>) -> bool {
    t.id == id && trimmed(input).len() > 0 && trimmed(input) != t.task
}

/// The list with the task of this id described anew. A description that is
/// blank changes nothing, nor does an id outside `1..=len`.
pub open spec fn updated(s: Seq<TodoView>, id: nat, input: Seq<char>) -> Seq<TodoView> {
    if 1 <= id <= s.len() {
        Seq::new(
            s.len(),
            |i: int|
                if rewords(s[i], id, input) {
                    TodoView { id: s[i].id, task: trimmed(input), completed: s[i].completed }
                } else {
                    s[i]
                },
        )
    } else {
        s
    }
}

/// Whether describing the task of this id anew would change the list.
pub open spec fn update_changes(s: Seq<TodoView>, id: nat, input: Seq<char>) -> bool {
    1 <= id <= s.len() && exists|i: int| 0 <= i < s.len() && rewords(#[trigger] s[i], id, input)
}

/// The tasks of the list that do not have this id, in their order.
pub open spec fn without(s: Seq<TodoView>, id: nat) -> Seq<TodoView> {
    s.filter(|t: TodoView| t.id != id)
}

/// The list with every id set to the task's place, counted from one.
pub open spec fn renumbered(s: Seq<TodoView>) -> Seq<TodoView> {
    Seq::new(s.len(), |i: int| TodoView { id: (i + 1) as nat, task: s[i].task, completed: s[i].completed })
}

/// The list after the task of this id has been removed and those that are
/// left have been renumbered. A list without such a task stays as it is.
pub open spec fn deleted(s: Seq<TodoView>, id: nat) -> Seq<TodoView> {
    if holds(s, id) {
        renumbered(without(s, id))
    } else {
        s
    }
}

/// The description of the last task of the list that has this id.
pub open spec fn removed_task(s: Seq<TodoView>, id: nat) -> Seq<char>
    decreases s.len(),
{
    if s.len() == 0 {
        Seq::empty()
    } else if s.last().id == id {
        s.last().task
    } else {
        removed_task(s.drop_last(), id)
    }
}

/// The place of the first task with this id, if the list holds one.
pub fn find(records: &Vec<Todo>, id: usize) -> (place: Option<usize>)
    ensures
        place is Some <==> holds(records.deep_view(), id as nat),
        place matches Some(i) ==> i < records.len() && records[i as int].id == id && forall|j: int|
            0 <= j < i ==> records[j].id != id,
{
    let ghost s = records.deep_view();
    let mut i: usize = 0;
    while i < records.len()
        invariant
            i <= records.len(),
            s == records.deep_view(),
            forall|j: int| 0 <= j < i ==> records[j].id != id,
        decreases records.len() - i,
    {
        if records[i].id == id {
            assert(s[i as int].id == id);
            return Some(i);
        }
        i += 1;
    }
    assert forall|j: int| 0 <= j < s.len() implies (#[trigger] s[j]).id != id by {
        assert(records[j].id != id);
    }
    None
}

/// Appends a task with the next id: the list's length plus one. The
/// description is trimmed; the task is not done. The next id must fit a
/// machine word.
pub fn create(records: &mut Vec<Todo>, input: &str)
    requires
        old(records).len() < usize::MAX,
    ensures
        final(records).deep_view() == created(old(records).deep_view(), input@),
        final(records).len() == old(records).len() + 1,
        final(records)@.take(old(records).len() as int) == old(records)@,
        ids_contiguous(old(records).deep_view()) ==> ids_contiguous(final(records).deep_view()),
{
    let ghost before = records.deep_view();
    let next: usize = records.len() + 1;
    let todo = Todo::new(next, trim(input));
    records.push(todo);
    assert(records.deep_view() =~= created(before, input@));
    assert(records@.take(old(records).len() as int) =~= old(records)@);
    proof {
        lemma_create_appends(before, input@);
    }
}

/// Marks the task of this id as done. Answers whether anything changed: a
/// list without such a task, or whose task of this id is done already, stays
/// as it is.
pub fn complete(records: &mut Vec<Todo>, id: usize) -> (changed: bool)
    ensures
        final(records).deep_view() == completed(old(records).deep_view(), id as nat),
        changed == holds_open(old(records).deep_view(), id as nat),
        !changed ==> final(records).deep_view() == old(records).deep_view(),
        ids_contiguous(old(records).deep_view()) ==> ids_contiguous(final(records).deep_view()),
{
    let ghost before = records.deep_view();
    let n: usize = records.len();
    let mut changed = false;
    let mut i: usize = 0;
    while i < n
        invariant
            i <= n,
            n == records.len(),
            n == before.len(),
            forall|j: int| 0 <= j < i ==> (#[trigger] records[j])@ == completed(before, id as nat)[j],
            forall|j: int| i <= j < n ==> (#[trigger] records[j])@ == before[j],
            changed <==> exists|j: int| 0 <= j < i && (#[trigger] before[j]).id == id && !before[j].completed,
        decreases n - i,
    {
        if records[i].id == id && !records[i].completed {
            records[i].completed = true;
            changed = true;
        }
        i += 1;
    }
    assert(records.deep_view() =~= completed(before, id as nat));
    proof {
        lemma_complete_monotonic(before, id as nat);
        if !changed {
            assert(completed(before, id as nat) =~= before);
        }
    }
    changed
}

/// Gives the task of this id a new description, trimmed. An id outside
/// `1..=len` is refused with `NotFound`. Otherwise answers whether anything
/// changed: a blank description, or one equal to the present one, leaves the
/// list as it is.
pub fn update(records: &mut Vec<Todo>, id: usize, input: &str) -> (r: Result<bool, StoreError>)
    ensures
        final(records).deep_view() == updated(old(records).deep_view(), id as nat, input@),
        r is Err <==> !(1 <= id <= old(records).len()),
        r matches Err(e) ==> e == StoreError::NotFound && final(records).deep_view() == old(
            records,
        ).deep_view(),
        r matches Ok(changed) ==> changed == update_changes(
            old(records).deep_view(),
            id as nat,
            input@,
        ),
        r == Ok::<bool, StoreError>(false) ==> final(records).deep_view() == old(records).deep_view(),
        ids_contiguous(old(records).deep_view()) ==> ids_contiguous(final(records).deep_view()),
{
    let ghost before = records.deep_view();
    let n: usize = records.len();
    if id < 1 || id > n {
        return Err(StoreError::NotFound);
    }
    let text: String = String::from_str(trim(input));
    let blank: bool = text.as_str().unicode_len() == 0;
    let mut changed = false;
    let mut i: usize = 0;
    while i < n
        invariant
            i <= n,
            1 <= id <= n,
            n == records.len(),
            n == before.len(),
            text@ == trimmed(input@),
            blank == (text@.len() == 0),
            forall|j: int| 0 <= j < i ==> (#[trigger] records[j])@ == updated(before, id as nat, input@)[j],
            forall|j: int| i <= j < n ==> (#[trigger] records[j])@ == before[j],
            changed <==> exists|j: int| 0 <= j < i && rewords(#[trigger] before[j], id as nat, input@),
        decreases n - i,
    {
        if records[i].id == id && !blank && !(records[i].task == text) {
            records[i].task = text.clone();
            changed = true;
        }
        i += 1;
    }
    assert(records.deep_view() =~= updated(before, id as nat, input@));
    proof {
        lemma_update_rewords_only(before, id as nat, input@);
        if !changed {
            assert(updated(before, id as nat, input@) =~= before);
        }
    }
    Ok(changed)
}

/// Removes the task of this id and renumbers the tasks that are left, so that
/// each id is again the task's place counted from one. Gives back the
/// description of the task that was removed. A list without such a task is
/// refused with `NotFound` and stays as it is.
pub fn delete(records: &mut Vec<Todo>, id: usize) -> (r: Result<String, StoreError>)
    ensures
        final(records).deep_view() == deleted(old(records).deep_view(), id as nat),
        r is Ok <==> holds(old(records).deep_view(), id as nat),
        r matches Ok(task) ==> task@ == removed_task(old(records).deep_view(), id as nat)
            && final(records).len() < old(records).len(),
        r matches Err(e) ==> e == StoreError::NotFound && final(records).deep_view() == old(
            records,
        ).deep_view(),
        r is Ok ==> ids_contiguous(final(records).deep_view()),
        ids_contiguous(old(records).deep_view()) ==> ids_contiguous(final(records).deep_view()),
{
    let ghost before = records.deep_view();
    let n: usize = records.len();
    let mut kept: Vec<Todo> = Vec::new();
    let mut removed: Option<String> = None;
    let mut i: usize = 0;
    assert(before.take(0) =~= Seq::<TodoView>::empty());
    proof {
        reveal_with_fuel(Seq::filter, 1);
        assert(without(before.take(0), id as nat) =~= Seq::<TodoView>::empty());
    }
    while i < n
        invariant
            i <= n,
            n == records.len(),
            before == records.deep_view(),
            kept.len() <= i,
            kept.deep_view() == renumbered(without(before.take(i as int), id as nat)),
            removed is Some <==> holds(before.take(i as int), id as nat),
            removed matches Some(task) ==> task@ == removed_task(before.take(i as int), id as nat),
        decreases n - i,
    {
        let ghost head = before.take(i as int);
        let ghost next = before.take(i + 1);
        proof {
            assert(next =~= head.push(before[i as int]));
            assert(next.drop_last() =~= head);
            assert(before[i as int] == records[i as int]@);
            head.lemma_filter_push(before[i as int], |t: TodoView| t.id != id as nat);
            lemma_holds_push(head, before[i as int], id as nat);
        }
        if records[i].id == id {
            removed = Some(records[i].task.clone());
        } else {
            let place: usize = kept.len() + 1;
            let ghost shorter = kept.deep_view();
            kept.push(Todo { id: place, task: records[i].task.clone(), completed: records[i].completed });
            assert(kept.deep_view() =~= renumbered(without(next, id as nat))) by {
                assert(kept.deep_view() =~= shorter.push(kept[kept.len() - 1]@));
            }
        }
        i += 1;
    }
    assert(before.take(n as int) =~= before);
    match removed {
        Some(task) => {
            proof {
                lemma_removed_shortens(before, id as nat);
            }
            *records = kept;
            Ok(task)
        },
        None => Err(StoreError::NotFound),
    }
}

/// A list holds an id after one more task if it held it before or the new
/// task has it.
proof fn lemma_holds_push(s: Seq<TodoView>, t: TodoView, id: nat)
    ensures
        holds(s.push(t), id) <==> holds(s, id) || t.id == id,
{
    let u = s.push(t);
    if holds(s, id) {
        let i = choose|i: int| 0 <= i < s.len() && (#[trigger] s[i]).id == id;
        assert(u[i].id == id);
    }
    if t.id == id {
        assert(u[s.len() as int].id == id);
    }
    if holds(u, id) {
        let i = choose|i: int| 0 <= i < u.len() && (#[trigger] u[i]).id == id;
        if i < s.len() {
            assert(s[i].id == id);
        }
    }
}

/// Removing the tasks of an id that the list holds leaves fewer tasks.
proof fn lemma_removed_shortens(s: Seq<TodoView>, id: nat)
    requires
        holds(s, id),
    ensures
        without(s, id).len() < s.len(),
    decreases s.len(),
{
    let p = |t: TodoView| t.id != id;
    let head = s.drop_last();
    assert(s =~= head.push(s.last()));
    head.lemma_filter_push(s.last(), p);
    head.lemma_filter_len(p);
    if s.last().id != id {
        lemma_holds_push(head, s.last(), id);
        lemma_removed_shortens(head, id);
    }
}

/// A list that holds no task of an id loses nothing when the tasks of that
/// id are taken out.
proof fn lemma_without_absent(s: Seq<TodoView>, id: nat)
    requires
        !holds(s, id),
    ensures
        without(s, id) == s,
    decreases s.len(),
{
    let p = |t: TodoView| t.id != id;
    if s.len() == 0 {
        reveal_with_fuel(Seq::filter, 1);
        assert(without(s, id) =~= s);
    } else {
        let head = s.drop_last();
        assert(s =~= head.push(s.last()));
        head.lemma_filter_push(s.last(), p);
        lemma_holds_push(head, s.last(), id);
        lemma_without_absent(head, id);
    }
}

/// A list whose ids are the places keeps them so when its last task goes.
proof fn lemma_head_contiguous(s: Seq<TodoView>)
    requires
        ids_contiguous(s),
        s.len() > 0,
    ensures
        ids_contiguous(s.drop_last()),
        s.last().id == s.len(),
{
    let head = s.drop_last();
    assert forall|i: int| 0 <= i < head.len() implies (#[trigger] head[i]).id == i + 1 by {
        assert(head[i] == s[i]);
    }
}

/// Taking the tasks of an id out of a list goes task by task from the end.
proof fn lemma_without_last(s: Seq<TodoView>, id: nat)
    requires
        s.len() > 0,
    ensures
        without(s, id) == if s.last().id != id {
            without(s.drop_last(), id).push(s.last())
        } else {
            without(s.drop_last(), id)
        },
{
    let p = |t: TodoView| t.id != id;
    assert(s =~= s.drop_last().push(s.last()));
    s.drop_last().lemma_filter_push(s.last(), p);
}

/// In a list whose ids are the places, the tasks of id `k` are the one task
/// at place `k`.
proof fn lemma_without_place(s: Seq<TodoView>, id: nat)
    requires
        ids_contiguous(s),
        1 <= id <= s.len(),
    ensures
        without(s, id) == s.remove(id - 1),
    decreases s.len(),
{
    let head = s.drop_last();
    lemma_head_contiguous(s);
    lemma_without_last(s, id);
    if id == s.len() {
        lemma_holds_in_range(head, id);
        lemma_without_absent(head, id);
        assert(s.remove(id - 1) =~= head);
    } else {
        lemma_without_place(head, id);
        assert(head.remove(id - 1).push(s.last()) =~= s.remove(id - 1));
    }
}

/// In a list whose ids are the places, the description that a removal gives
/// back is that of the task at the id's place.
proof fn lemma_removed_task_place(s: Seq<TodoView>, id: nat)
    requires
        ids_contiguous(s),
        1 <= id <= s.len(),
    ensures
        removed_task(s, id) == s[id - 1].task,
    decreases s.len(),
{
    lemma_head_contiguous(s);
    if id != s.len() {
        lemma_removed_task_place(s.drop_last(), id);
        assert(s.drop_last()[id - 1] == s[id - 1]);
    }
}

/// A list whose ids are the places holds exactly the ids from one to its
/// length.
pub proof fn lemma_holds_in_range(s: Seq<TodoView>, id: nat)
    requires
        ids_contiguous(s),
    ensures
        holds(s, id) <==> 1 <= id <= s.len(),
{
    if 1 <= id <= s.len() {
        assert(s[id - 1].id == id);
    }
}

/// Appending a task keeps the ids in step with the places: the new list is
/// the old one, unchanged, and then the new task, which has the next id and
/// the trimmed description and is not done. The new description neither
/// begins nor ends with white space.
pub proof fn lemma_create_appends(s: Seq<TodoView>, input: Seq<char>)
    ensures
        ids_contiguous(s) ==> ids_contiguous(created(s, input)),
        created(s, input).len() == s.len() + 1,
        created(s, input).take(s.len() as int) == s,
        created(s, input).last() == (TodoView {
            id: s.len() + 1,
            task: trimmed(input),
            completed: false,
        }),
        is_trimmed(created(s, input).last().task),
{
    assert(created(s, input).take(s.len() as int) =~= s);
    lemma_trimmed_is_trimmed(input);
}

/// Marking a task as done changes no id and no description, and takes no
/// mark away: only tasks of that id change, and only from not done to done.
/// Doing it a second time changes nothing more.
pub proof fn lemma_complete_monotonic(s: Seq<TodoView>, id: nat)
    ensures
        ids_contiguous(s) ==> ids_contiguous(completed(s, id)),
        completed(s, id).len() == s.len(),
        forall|i: int|
            0 <= i < s.len() && ((#[trigger] s[i]).id != id || s[i].completed) ==> completed(s, id)[i]
                == s[i],
        forall|i: int|
            0 <= i < s.len() && (#[trigger] s[i]).id == id ==> completed(s, id)[i] == (TodoView {
                id: s[i].id,
                task: s[i].task,
                completed: true,
            }),
        !holds_open(s, id) ==> completed(s, id) == s,
        !holds_open(completed(s, id), id),
        completed(completed(s, id), id) == completed(s, id),
{
    let c = completed(s, id);
    if !holds_open(s, id) {
        assert(c =~= s);
    }
    assert(completed(c, id) =~= c);
    if holds_open(c, id) {
        let i = choose|i: int| 0 <= i < c.len() && (#[trigger] c[i]).id == id && !c[i].completed;
        assert(c[i].completed);
    }
}

/// Describing a task anew changes no id and no mark. A blank description
/// changes nothing, nor does one that, trimmed, is the present description
/// of every task of that id.
pub proof fn lemma_update_rewords_only(s: Seq<TodoView>, id: nat, input: Seq<char>)
    ensures
        ids_contiguous(s) ==> ids_contiguous(updated(s, id, input)),
        updated(s, id, input).len() == s.len(),
        trimmed(input).len() == 0 ==> updated(s, id, input) == s,
        !update_changes(s, id, input) ==> updated(s, id, input) == s,
        ids_contiguous(s) && 1 <= id <= s.len() && trimmed(input) == s[id - 1].task ==> updated(
            s,
            id,
            input,
        ) == s,
        forall|i: int|
            0 <= i < s.len() && (#[trigger] s[i]).id != id ==> updated(s, id, input)[i] == s[i],
{
    let u = updated(s, id, input);
    if !update_changes(s, id, input) {
        assert(u =~= s);
    }
    if ids_contiguous(s) && 1 <= id <= s.len() && trimmed(input) == s[id - 1].task {
        assert forall|i: int| 0 <= i < s.len() implies !rewords(#[trigger] s[i], id, input) by {
            if s[i].id == id {
                assert(i == id - 1);
            }
        }
        assert(u =~= s);
    }
}

/// After a removal every id is the task's place, whatever the ids were
/// before.
pub proof fn lemma_delete_restores_ids(s: Seq<TodoView>, id: nat)
    ensures
        holds(s, id) || ids_contiguous(s) ==> ids_contiguous(deleted(s, id)),
        holds(s, id) ==> deleted(s, id).len() < s.len(),
{
    if holds(s, id) {
        lemma_removed_shortens(s, id);
    }
}

/// In a list whose ids are the places, removing the task of id `k` takes out
/// the task at place `k` and no other: the tasks before it stay as they are,
/// and each task after it moves up one place and gets that place as its id.
pub proof fn lemma_delete_renumbers(s: Seq<TodoView>, id: nat)
    requires
        ids_contiguous(s),
        1 <= id <= s.len(),
    ensures
        deleted(s, id).len() == s.len() - 1,
        ids_contiguous(deleted(s, id)),
        removed_task(s, id) == s[id - 1].task,
        forall|i: int| 0 <= i < id - 1 ==> (#[trigger] deleted(s, id)[i]) == s[i],
        forall|i: int|
            id - 1 <= i < s.len() - 1 ==> (#[trigger] deleted(s, id)[i]) == (TodoView {
                id: (i + 1) as nat,
                task: s[i + 1].task,
                completed: s[i + 1].completed,
            }),
{
    lemma_holds_in_range(s, id);
    lemma_without_place(s, id);
    lemma_removed_task_place(s, id);
}

/// An id that the list does not hold changes nothing, whichever operation
/// it is given to.
pub proof fn lemma_unknown_id(s: Seq<TodoView>, id: nat, input: Seq<char>)
    requires
        !holds(s, id),
    ensures
        !holds_open(s, id),
        completed(s, id) == s,
        !update_changes(s, id, input),
        updated(s, id, input) == s,
        deleted(s, id) == s,
{
    assert(completed(s, id) =~= s);
    if 1 <= id <= s.len() {
        assert(updated(s, id, input) =~= s);
    }
    if holds_open(s, id) {
        let i = choose|i: int| 0 <= i < s.len() && (#[trigger] s[i]).id == id && !s[i].completed;
        assert(s[i].id == id);
    }
}

/// One change to the list.
pub enum Change {
    /// A task is created from a description.
    Create(Seq<char>),
    /// The task of an id is marked as done.
    Complete(nat),
    /// The task of an id is described anew.
    Update(nat, Seq<char>),
    /// The task of an id is removed.
    Delete(nat),
}

/// The list after one change.
pub open spec fn changed(s: Seq<TodoView>, change: Change) -> Seq<TodoView> {
    match change {
        Change::Create(input) => created(s, input),
        Change::Complete(id) => completed(s, id),
        Change::Update(id, input) => updated(s, id, input),
        Change::Delete(id) => deleted(s, id),
    }
}

/// The list after some changes, made one after another.
pub open spec fn changed_by_all(s: Seq<TodoView>, changes: Seq<Change>) -> Seq<TodoView>
    decreases changes.len(),
{
    if changes.len() == 0 {
        s
    } else {
        changed(changed_by_all(s, changes.drop_last()), changes.last())
    }
}

/// Whatever changes are made to a list whose ids are the places, in whatever
/// order, the ids are the places afterwards: one, two, and so on up to the
/// number of tasks.
pub proof fn lemma_ids_stay_contiguous(s: Seq<TodoView>, changes: Seq<Change>)
    requires
        ids_contiguous(s),
    ensures
        ids_contiguous(changed_by_all(s, changes)),
    decreases changes.len(),
{
    if changes.len() > 0 {
        lemma_ids_stay_contiguous(s, changes.drop_last());
        let before = changed_by_all(s, changes.drop_last());
        match changes.last() {
            Change::Create(input) => lemma_create_appends(before, input),
            Change::Complete(id) => lemma_complete_monotonic(before, id),
            Change::Update(id, input) => lemma_update_rewords_only(before, id, input),
            Change::Delete(id) => lemma_delete_restores_ids(before, id),
        }
    }
}

/// A list that began empty has its ids in step with the places after any
/// changes.
pub proof fn lemma_ids_contiguous_from_empty(changes: Seq<Change>)
    ensures
        ids_contiguous(changed_by_all(Seq::empty(), changes)),
{
    lemma_ids_stay_contiguous(Seq::empty(), changes);
}

} // verus!
