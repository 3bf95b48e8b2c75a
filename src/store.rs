use vstd::prelude::*;

use crate::errors::ErrorString;

verus! {

broadcast use vstd::seq_lib::group_seq_properties;

/// A task: its id, assigned by the store, its name and whether it is done.
#[derive(Debug)]
pub struct Todo {
    pub id: i32,
    pub name: String,
    pub done: bool,
}

/// What a [`Todo`] holds, as a mathematical value.
pub struct TodoView {
    pub id: i32,
    pub name: Seq<char>,
    pub done: bool,
}

impl View for Todo {
    type V = TodoView;

    open spec fn view(&self) -> TodoView {
        TodoView { id: self.id, name: self.name@, done: self.done }
    }
}

impl Todo {
    /// A copy of this todo.
    pub fn duplicate(&self) -> (r: Todo)
        ensures
            r@ == self@,
    {
        Todo { id: self.id, name: self.name.clone(), done: self.done }
    }
}

/// A directed dependency edge between two todo ids.
#[derive(Debug, Clone, Copy, PartialEq, Eq, Structural)]
pub struct Dep {
    pub from: i32,
    pub to: i32,
}

/// A request to create a todo by its name.
#[derive(Debug)]
pub struct CreateTodo {
    pub name: String,
}

/// The whole contents of the store: every todo, then every edge.
#[derive(Debug)]
pub struct GetAll {
    pub todos: Vec<Todo>,
    pub deps: Vec<Dep>,
}

/// The contents of the store as a mathematical value: the rows of the todo
/// table in order of their ids, and the rows of the edge table in order of
/// insertion.
pub struct StoreView {
    pub todos: Seq<TodoView>,
    pub deps: Seq<Dep>,
}

pub open spec fn todos_view(todos: Seq<Todo>) -> Seq<TodoView> {
    todos.map_values(|t: Todo| t@)
}

/// How many rows of `deps` are exactly `dep`.
pub open spec fn dep_count(deps: Seq<Dep>, dep: Dep) -> nat {
    deps.filter(equal_to(dep)).len()
}

/// Whether an edge equals `dep`.
pub open spec fn equal_to(dep: Dep) -> spec_fn(Dep) -> bool {
    |d: Dep| d == dep
}

/// Whether an edge differs from `dep`.
pub open spec fn other_than(dep: Dep) -> spec_fn(Dep) -> bool {
    |d: Dep| d != dep
}

impl View for GetAll {
    type V = StoreView;

    open spec fn view(&self) -> StoreView {
        StoreView { todos: todos_view(self.todos@), deps: self.deps@ }
    }
}

impl StoreView {
    /// Ids are positive and strictly ascending, hence unique.
    pub open spec fn wf(self) -> bool {
        &&& forall|i: int| 0 <= i < self.todos.len() ==> 1 <= #[trigger] self.todos[i].id
        &&& forall|i: int, j: int|
            0 <= i < j < self.todos.len() ==> self.todos[i].id < self.todos[j].id
    }

    /// The id that the next created todo receives.
    pub open spec fn next_id(self) -> int {
        if self.todos.len() == 0 {
            1
        } else {
            self.todos.last().id + 1
        }
    }

    pub open spec fn has_id(self, id: i32) -> bool {
        exists|i: int| 0 <= i < self.todos.len() && #[trigger] self.todos[i].id == id
    }

    /// The store after a todo named `name` was created (when its id fits).
    pub open spec fn with_todo(self, name: Seq<char>) -> StoreView {
        StoreView {
            todos: self.todos.push(TodoView { id: self.next_id() as i32, name, done: false }),
            deps: self.deps,
        }
    }

    /// The store after the todo with id `id` was set to `name` and `done`.
    pub open spec fn with_modified(self, id: i32, name: Seq<char>, done: bool) -> StoreView {
        StoreView {
            todos: self.todos.map_values(
                |t: TodoView|
                    if t.id == id {
                        TodoView { id, name, done }
                    } else {
                        t
                    },
            ),
            deps: self.deps,
        }
    }

    /// The store after the edge `dep` was added.
    pub open spec fn with_dep(self, dep: Dep) -> StoreView {
        StoreView { todos: self.todos, deps: self.deps.push(dep) }
    }

    /// The store after every edge equal to `dep` was removed.
    pub open spec fn without_dep(self, dep: Dep) -> StoreView {
        StoreView { todos: self.todos, deps: self.deps.filter(other_than(dep)) }
    }
}

/// The rows of the two tables: todos and dependency edges.
///
/// Every operation takes the store whole (`&self` or `&mut self`), so that
/// operations on one store are totally ordered.
pub struct Store {
    todos: Vec<Todo>,
    deps: Vec<Dep>,
}

impl View for Store {
    type V = StoreView;

    closed spec fn view(&self) -> StoreView {
        StoreView { todos: todos_view(self.todos@), deps: self.deps@ }
    }
}

impl Store {
    pub open spec fn wf(&self) -> bool {
        self@.wf()
    }

    /// A store with empty tables.
    pub fn new() -> (s: Store)
        ensures
            s.wf(),
            s@.todos.len() == 0,
            s@.deps.len() == 0,
    {
        Store { todos: Vec::new(), deps: Vec::new() }
    }

    /// A store holding the rows `todos`, in that order, and `deps`. Fails
    /// unless the ids of `todos` are positive and strictly ascending.
    pub fn from_rows(todos: Vec<Todo>, deps: Vec<Dep>) -> (r: Result<Store, ErrorString>)
        ensures
            r is Ok <==> (StoreView { todos: todos_view(todos@), deps: deps@ }).wf(),
            r is Ok ==> r->Ok_0.wf() && r->Ok_0@ == (StoreView {
                todos: todos_view(todos@),
                deps: deps@,
            }),
    {
        let ghost v = todos_view(todos@);
        let n = todos.len();
        let mut i: usize = 0;
        while i < n
            invariant
                n == todos@.len(),
                v == todos_view(todos@),
                i <= n,
                forall|k: int| 0 <= k < i ==> 1 <= #[trigger] v[k].id,
                forall|a: int, b: int| 0 <= a < b < i ==> v[a].id < v[b].id,
            decreases n - i,
        {
            let id = todos[i].id;
            if id < 1 {
                let ghost sv = StoreView { todos: v, deps: deps@ };
                assert(sv.todos[i as int].id == id);
                assert(!sv.wf());
                return Err(ErrorString("a todo id is not positive".to_string()));
            }
            if i > 0 && todos[i - 1].id >= id {
                let ghost sv = StoreView { todos: v, deps: deps@ };
                assert(sv.todos[i - 1].id >= sv.todos[i as int].id);
                assert(!sv.wf());
                return Err(ErrorString("todo ids are not ascending".to_string()));
            }
            proof {
                assert(v[i as int].id == id);
                if i > 0 {
                    assert(v[i - 1].id < v[i as int].id);
                    assert forall|a: int| 0 <= a < i implies v[a].id < v[i as int].id by {
                        if a < i - 1 {
                            assert(v[a].id < v[i - 1].id);
                        }
                    }
                }
            }
            i = i + 1;
        }
        Ok(Store { todos, deps })
    }

    /// Whether a todo can be created: its id would fit in an `i32`.
    pub fn can_create_todo(&self) -> (r: bool)
        ensures
            r == (self@.next_id() <= i32::MAX),
    {
        let n = self.todos.len();
        if n == 0 {
            true
        } else {
            assert(self@.todos[n - 1].id == self.todos@[n - 1].id);
            self.todos[n - 1].id < i32::MAX
        }
    }

    /// Every todo, then every edge.
    pub fn get_all(&self) -> (r: GetAll)
        ensures
            r@ == self@,
    {
        let mut todos: Vec<Todo> = Vec::new();
        let mut i: usize = 0;
        while i < self.todos.len()
            invariant
                i <= self.todos.len(),
                todos@.len() == i,
                forall|k: int| 0 <= k < i ==> (#[trigger] todos@[k])@ == self.todos@[k]@,
            decreases self.todos.len() - i,
        {
            let t = self.todos[i].duplicate();
            todos.push(t);
            i = i + 1;
        }
        assert(todos_view(todos@) =~= todos_view(self.todos@));
        let mut deps: Vec<Dep> = Vec::new();
        let mut j: usize = 0;
        while j < self.deps.len()
            invariant
                j <= self.deps.len(),
                deps@ == self.deps@.subrange(0, j as int),
            decreases self.deps.len() - j,
        {
            deps.push(self.deps[j]);
            j = j + 1;
            assert(deps@ =~= self.deps@.subrange(0, j as int));
        }
        assert(deps@ =~= self.deps@);
        GetAll { todos, deps }
    }

    /// Adds the edge `dep`; an equal edge may already be there.
    pub fn create_dep(&mut self, dep: Dep)
        requires
            old(self).wf(),
        ensures
            final(self).wf(),
            final(self)@ == old(self)@.with_dep(dep),
    {
        self.deps.push(dep);
        assert(self@.todos =~= old(self)@.todos);
    }

    /// Removes every edge equal to `dep`; none may be there.
    pub fn delete_dep(&mut self, dep: Dep)
        requires
            old(self).wf(),
        ensures
            final(self).wf(),
            final(self)@ == old(self)@.without_dep(dep),
    {
        let mut kept: Vec<Dep> = Vec::new();
        let mut i: usize = 0;
        while i < self.deps.len()
            invariant
                i <= self.deps.len(),
                kept@ == self.deps@.subrange(0, i as int).filter(other_than(dep)),
            decreases self.deps.len() - i,
        {
            let d = self.deps[i];
            proof {
                assert(self.deps@.subrange(0, i + 1) =~= self.deps@.subrange(0, i as int).push(d));
                self.deps@.subrange(0, i as int).lemma_filter_push(d, other_than(dep));
            }
            if d != dep {
                kept.push(d);
            }
            i = i + 1;
        }
        assert(self.deps@.subrange(0, i as int) =~= self.deps@);
        self.deps = kept;
        assert(self@.todos =~= old(self)@.todos);
    }

    /// Creates a todo named `req.name`, not done, whose id is one above the
    /// last id given (1 for the first). Fails, changing nothing, when that id
    /// does not fit in an `i32`.
    pub fn create_todo(&mut self, req: CreateTodo) -> (r: Result<(), ErrorString>)
        requires
            old(self).wf(),
        ensures
            final(self).wf(),
            r is Ok <==> old(self)@.next_id() <= i32::MAX,
            r is Ok ==> final(self)@ == old(self)@.with_todo(req.name@),
            r is Err ==> final(self)@ == old(self)@,
    {
        let n = self.todos.len();
        let id: i32 = if n == 0 {
            1
        } else {
            let last = self.todos[n - 1].id;
            if last == i32::MAX {
                return Err(ErrorString("no todo id is left".to_string()));
            }
            last + 1
        };
        proof {
            if n > 0 {
                assert(todos_view(self.todos@)[n - 1].id == self.todos@[n - 1].id);
            }
        }
        self.todos.push(Todo { id, name: req.name, done: false });
        assert(self@.todos =~= old(self)@.with_todo(req.name@).todos);
        Ok(())
    }

    /// Sets the name and done flag of the todo with id `todo.id`; changes
    /// nothing where no todo has that id.
    pub fn modify_todo(&mut self, todo: Todo)
        requires
            old(self).wf(),
        ensures
            final(self).wf(),
            final(self)@ == old(self)@.with_modified(todo.id, todo.name@, todo.done),
    {
        let ghost target = old(self)@.with_modified(todo.id, todo.name@, todo.done).todos;
        let mut todos: Vec<Todo> = Vec::new();
        let mut i: usize = 0;
        while i < self.todos.len()
            invariant
                i <= self.todos.len(),
                self@ == old(self)@,
                target == self@.with_modified(todo.id, todo.name@, todo.done).todos,
                todos@.len() == i,
                forall|k: int| 0 <= k < i ==> (#[trigger] todos@[k])@ == target[k],
            decreases self.todos.len() - i,
        {
            let t = if self.todos[i].id == todo.id {
                Todo { id: todo.id, name: todo.name.clone(), done: todo.done }
            } else {
                self.todos[i].duplicate()
            };
            todos.push(t);
            i = i + 1;
        }
        assert(todos_view(todos@) =~= target);
        self.todos = todos;
    }
}

} // verus!
