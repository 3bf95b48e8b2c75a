use vstd::prelude::*;

use crate::store::{dep_count, equal_to, other_than, Dep, StoreView, TodoView};

verus! {

broadcast use vstd::seq_lib::group_seq_properties;

/// Creating a todo adds exactly one todo, after all those that were there: it
/// has the given name, is not done, and has an id that no earlier todo has.
pub proof fn lemma_create_todo_adds_one(s: StoreView, name: Seq<char>)
    requires
        s.wf(),
        s.next_id() <= i32::MAX,
    ensures
        s.with_todo(name).wf(),
        s.with_todo(name).deps == s.deps,
        s.with_todo(name).todos.len() == s.todos.len() + 1,
        s.with_todo(name).todos.subrange(0, s.todos.len() as int) == s.todos,
        s.with_todo(name).todos.last().name == name,
        !s.with_todo(name).todos.last().done,
        !s.has_id(s.with_todo(name).todos.last().id),
{
    let t = s.with_todo(name).todos;
    assert(t.subrange(0, s.todos.len() as int) =~= s.todos);
    if s.todos.len() > 0 {
        assert(s.todos.last() == s.todos[s.todos.len() - 1]);
    }
}

/// Modifying a todo sets exactly the new name and done flag on the todo with
/// that id, where one was there, and leaves every other todo as it was; where
/// none had that id, the todos are unchanged.
pub proof fn lemma_modify_todo_sets_row(s: StoreView, id: i32, name: Seq<char>, done: bool)
    requires
        s.wf(),
    ensures
        s.with_modified(id, name, done).wf(),
        s.with_modified(id, name, done).deps == s.deps,
        s.with_modified(id, name, done).todos.len() == s.todos.len(),
        s.has_id(id) ==> s.with_modified(id, name, done).todos.contains(
            TodoView { id, name, done },
        ),
        forall|i: int|
            0 <= i < s.todos.len() && s.todos[i].id == id ==> #[trigger] s.with_modified(
                id,
                name,
                done,
            ).todos[i] == (TodoView { id, name, done }),
        forall|i: int|
            0 <= i < s.todos.len() && s.todos[i].id != id ==> #[trigger] s.with_modified(
                id,
                name,
                done,
            ).todos[i] == s.todos[i],
        !s.has_id(id) ==> s.with_modified(id, name, done).todos == s.todos,
{
    let t = s.with_modified(id, name, done).todos;
    assert forall|i: int| 0 <= i < t.len() implies #[trigger] t[i].id == s.todos[i].id by {}
    if s.has_id(id) {
        let i = choose|i: int| 0 <= i < s.todos.len() && #[trigger] s.todos[i].id == id;
        assert(t[i] == TodoView { id, name, done });
    } else {
        assert(t =~= s.todos);
    }
}

/// Counting the edges equal to `dep` in a sequence that grew by one edge.
proof fn lemma_dep_count_push(deps: Seq<Dep>, d: Dep, dep: Dep)
    ensures
        dep_count(deps.push(d), dep) == dep_count(deps, dep) + if d == dep {
            1nat
        } else {
            0nat
        },
{
    deps.lemma_filter_push(d, equal_to(dep));
}

/// Creating an edge puts it among the edges; creating it twice puts two more
/// equal edges there, as duplicates are kept.
pub proof fn lemma_create_dep_kept(s: StoreView, dep: Dep)
    ensures
        s.with_dep(dep).deps.contains(dep),
        s.with_dep(dep).todos == s.todos,
        dep_count(s.with_dep(dep).deps, dep) == dep_count(s.deps, dep) + 1,
        dep_count(s.with_dep(dep).with_dep(dep).deps, dep) == dep_count(s.deps, dep) + 2,
{
    let once = s.with_dep(dep).deps;
    assert(once[once.len() - 1] == dep);
    lemma_dep_count_push(s.deps, dep, dep);
    lemma_dep_count_push(once, dep, dep);
}

/// Deleting an edge removes every edge equal to it, keeps every other edge,
/// leaves the todos alone, and deleting it again changes nothing.
pub proof fn lemma_delete_dep_removes_all(s: StoreView, dep: Dep)
    ensures
        !s.without_dep(dep).deps.contains(dep),
        dep_count(s.without_dep(dep).deps, dep) == 0,
        forall|d: Dep| d != dep && s.deps.contains(d) ==> #[trigger] s.without_dep(
            dep,
        ).deps.contains(d),
        forall|d: Dep| #[trigger] s.without_dep(dep).deps.contains(d) ==> s.deps.contains(d),
        s.without_dep(dep).todos == s.todos,
        s.without_dep(dep).without_dep(dep) == s.without_dep(dep),
{
    let r = s.without_dep(dep).deps;
    let p = other_than(dep);
    assert forall|i: int| 0 <= i < r.len() implies #[trigger] p(r[i]) by {
        s.deps.lemma_filter_pred(p, i);
    }
    assert forall|d: Dep| d != dep && s.deps.contains(d) implies #[trigger] r.contains(d) by {
        let i = choose|i: int| 0 <= i < s.deps.len() && s.deps[i] == d;
        s.deps.lemma_filter_contains(p, i);
    }
    assert forall|d: Dep| #[trigger] r.contains(d) implies s.deps.contains(d) by {
        s.deps.lemma_filter_contains_rev(p, d);
    }
    lemma_filter_keeps_all(r, p);
    lemma_none_counted(r, dep);
    assert(s.without_dep(dep).without_dep(dep).deps == r);
}

/// Filtering a sequence whose elements all pass leaves it as it was.
proof fn lemma_filter_keeps_all(s: Seq<Dep>, p: spec_fn(Dep) -> bool)
    requires
        forall|i: int| 0 <= i < s.len() ==> #[trigger] p(s[i]),
    ensures
        s.filter(p) == s,
    decreases s.len(),
{
    if s.len() > 0 {
        let init = s.drop_last();
        lemma_filter_keeps_all(init, p);
        init.lemma_filter_push(s.last(), p);
        assert(init.push(s.last()) =~= s);
    }
}

/// A sequence with no edge equal to `dep` counts none of them.
proof fn lemma_none_counted(s: Seq<Dep>, dep: Dep)
    requires
        forall|i: int| 0 <= i < s.len() ==> #[trigger] s[i] != dep,
    ensures
        dep_count(s, dep) == 0,
    decreases s.len(),
{
    if s.len() > 0 {
        let init = s.drop_last();
        lemma_none_counted(init, dep);
        lemma_dep_count_push(init, s.last(), dep);
        assert(init.push(s.last()) =~= s);
    }
}

/// The store after todos named `names` were created one after another.
pub open spec fn with_todos(s: StoreView, names: Seq<Seq<char>>) -> StoreView
    decreases names.len(),
{
    if names.len() == 0 {
        s
    } else {
        with_todos(s, names.drop_last()).with_todo(names.last())
    }
}

/// Creating `n` todos, one after another, while ids fit, adds exactly `n`
/// todos after those that were there, in order and with the given names, none
/// done, each with an id of its own.
pub proof fn lemma_create_todos_distinct_ids(s: StoreView, names: Seq<Seq<char>>)
    requires
        s.wf(),
        s.next_id() + names.len() - 1 <= i32::MAX,
    ensures
        with_todos(s, names).wf(),
        with_todos(s, names).deps == s.deps,
        with_todos(s, names).next_id() == s.next_id() + names.len(),
        with_todos(s, names).todos.len() == s.todos.len() + names.len(),
        with_todos(s, names).todos.subrange(0, s.todos.len() as int) == s.todos,
        forall|k: int|
            0 <= k < names.len() ==> (#[trigger] with_todos(s, names).todos[s.todos.len() + k]).name
                == names[k] && !with_todos(s, names).todos[s.todos.len() + k].done,
        forall|i: int, j: int|
            0 <= i < j < with_todos(s, names).todos.len() ==> with_todos(s, names).todos[i].id
                != with_todos(s, names).todos[j].id,
    decreases names.len(),
{
    if names.len() > 0 {
        let init = names.drop_last();
        let prev = with_todos(s, init);
        lemma_create_todos_distinct_ids(s, init);
        lemma_create_todo_adds_one(prev, names.last());
        let r = with_todos(s, names);
        assert(r == prev.with_todo(names.last()));
        assert(r.todos.subrange(0, s.todos.len() as int) =~= s.todos) by {
            assert(r.todos.subrange(0, prev.todos.len() as int) == prev.todos);
        }
        assert forall|k: int| 0 <= k < names.len() implies (#[trigger] r.todos[s.todos.len()
            + k]).name == names[k] && !r.todos[s.todos.len() + k].done by {
            if k < init.len() {
                assert(r.todos[s.todos.len() + k] == prev.todos[s.todos.len() + k]);
                assert(init[k] == names[k]);
            }
        }
    }
}

} // verus!
