use todograph::store::{CreateTodo, Dep, GetAll, Store, Todo};

fn create(s: &mut Store, name: &str) {
    assert!(s.create_todo(CreateTodo { name: name.to_string() }).is_ok());
}

fn todos_of(g: &GetAll) -> Vec<(i32, String, bool)> {
    g.todos.iter().map(|t| (t.id, t.name.clone(), t.done)).collect()
}

fn deps_of(g: &GetAll) -> Vec<(i32, i32)> {
    g.deps.iter().map(|d| (d.from, d.to)).collect()
}

#[test]
fn fresh_store_is_empty() {
    let s = Store::new();
    let g = s.get_all();
    assert!(g.todos.is_empty());
    assert!(g.deps.is_empty());
}

#[test]
fn scenario_milk_and_bread() {
    let mut s = Store::new();
    create(&mut s, "buy milk");
    let g = s.get_all();
    assert_eq!(todos_of(&g), vec![(1, "buy milk".to_string(), false)]);
    assert!(deps_of(&g).is_empty());

    create(&mut s, "buy bread");
    s.create_dep(Dep { from: 1, to: 2 });
    let g = s.get_all();
    assert_eq!(deps_of(&g), vec![(1, 2)]);

    s.modify_todo(Todo { id: 1, name: "buy milk".to_string(), done: true });
    let g = s.get_all();
    assert_eq!(
        todos_of(&g),
        vec![(1, "buy milk".to_string(), true), (2, "buy bread".to_string(), false)]
    );

    s.delete_dep(Dep { from: 1, to: 2 });
    let g = s.get_all();
    assert!(deps_of(&g).is_empty());
}

#[test]
fn create_todo_adds_one_not_done() {
    let mut s = Store::new();
    create(&mut s, "a");
    create(&mut s, "b");
    let before = s.get_all().todos.len();
    create(&mut s, "write report");
    let g = s.get_all();
    assert_eq!(g.todos.len(), before + 1);
    let last = g.todos.last().unwrap();
    assert_eq!(last.name, "write report");
    assert!(!last.done);
    assert_eq!(last.id, 3);
}

#[test]
fn create_todo_accepts_empty_name() {
    let mut s = Store::new();
    create(&mut s, "");
    assert_eq!(todos_of(&s.get_all()), vec![(1, String::new(), false)]);
}

#[test]
fn modify_todo_sets_both_fields() {
    let mut s = Store::new();
    create(&mut s, "a");
    create(&mut s, "b");
    s.modify_todo(Todo { id: 2, name: "renamed".to_string(), done: true });
    assert_eq!(
        todos_of(&s.get_all()),
        vec![(1, "a".to_string(), false), (2, "renamed".to_string(), true)]
    );
    s.modify_todo(Todo { id: 2, name: "again".to_string(), done: false });
    assert_eq!(
        todos_of(&s.get_all()),
        vec![(1, "a".to_string(), false), (2, "again".to_string(), false)]
    );
}

#[test]
fn modify_missing_todo_changes_nothing() {
    let mut s = Store::new();
    create(&mut s, "a");
    s.modify_todo(Todo { id: 7, name: "ghost".to_string(), done: true });
    assert_eq!(todos_of(&s.get_all()), vec![(1, "a".to_string(), false)]);
}

#[test]
fn create_dep_keeps_duplicates() {
    let mut s = Store::new();
    s.create_dep(Dep { from: 3, to: 4 });
    s.create_dep(Dep { from: 3, to: 4 });
    assert_eq!(deps_of(&s.get_all()), vec![(3, 4), (3, 4)]);
}

#[test]
fn create_dep_allows_dangling_ids() {
    let mut s = Store::new();
    s.create_dep(Dep { from: 10, to: -5 });
    assert_eq!(deps_of(&s.get_all()), vec![(10, -5)]);
    assert!(s.get_all().todos.is_empty());
}

#[test]
fn delete_dep_removes_every_match_and_is_idempotent() {
    let mut s = Store::new();
    s.create_dep(Dep { from: 1, to: 2 });
    s.create_dep(Dep { from: 2, to: 1 });
    s.create_dep(Dep { from: 1, to: 2 });
    s.create_dep(Dep { from: 1, to: 3 });
    s.delete_dep(Dep { from: 1, to: 2 });
    assert_eq!(deps_of(&s.get_all()), vec![(2, 1), (1, 3)]);
    s.delete_dep(Dep { from: 1, to: 2 });
    assert_eq!(deps_of(&s.get_all()), vec![(2, 1), (1, 3)]);
}

#[test]
fn delete_dep_on_empty_store() {
    let mut s = Store::new();
    s.delete_dep(Dep { from: 1, to: 2 });
    assert!(s.get_all().deps.is_empty());
}

#[test]
fn many_creates_get_distinct_ids() {
    let mut s = Store::new();
    let n: i32 = 50;
    for k in 0..n {
        create(&mut s, &format!("task {}", k));
    }
    let g = s.get_all();
    assert_eq!(g.todos.len(), n as usize);
    let mut ids: Vec<i32> = g.todos.iter().map(|t| t.id).collect();
    ids.sort();
    ids.dedup();
    assert_eq!(ids.len(), n as usize);
    for (k, t) in g.todos.iter().enumerate() {
        assert_eq!(t.name, format!("task {}", k));
        assert_eq!(t.id, k as i32 + 1);
    }
}

#[test]
fn duplicate_copies_a_todo() {
    let t = Todo { id: 4, name: "x".to_string(), done: true };
    let c = t.duplicate();
    assert_eq!((c.id, c.name.as_str(), c.done), (4, "x", true));
}

fn todo(id: i32, name: &str) -> Todo {
    Todo { id, name: name.to_string(), done: false }
}

#[test]
fn from_rows_keeps_rows() {
    let s = Store::from_rows(vec![todo(2, "a"), todo(5, "b")], vec![Dep { from: 2, to: 5 }])
        .ok()
        .unwrap();
    let g = s.get_all();
    assert_eq!(
        todos_of(&g),
        vec![(2, "a".to_string(), false), (5, "b".to_string(), false)]
    );
    assert_eq!(deps_of(&g), vec![(2, 5)]);
}

#[test]
fn from_rows_then_create_takes_next_id() {
    let mut s = Store::from_rows(vec![todo(2, "a"), todo(5, "b")], Vec::new()).ok().unwrap();
    create(&mut s, "c");
    assert_eq!(s.get_all().todos.last().unwrap().id, 6);
}

#[test]
fn from_rows_refuses_unordered_ids() {
    assert!(Store::from_rows(vec![todo(3, "a"), todo(3, "b")], Vec::new()).is_err());
    assert!(Store::from_rows(vec![todo(4, "a"), todo(1, "b")], Vec::new()).is_err());
}

#[test]
fn from_rows_refuses_non_positive_id() {
    assert!(Store::from_rows(vec![todo(0, "a")], Vec::new()).is_err());
    assert!(Store::from_rows(vec![todo(-3, "a")], Vec::new()).is_err());
}

#[test]
fn create_todo_fails_when_ids_run_out() {
    let mut s = Store::from_rows(vec![todo(i32::MAX, "last")], Vec::new()).ok().unwrap();
    assert!(!s.can_create_todo());
    assert!(s.create_todo(CreateTodo { name: "one more".to_string() }).is_err());
    assert_eq!(todos_of(&s.get_all()), vec![(i32::MAX, "last".to_string(), false)]);
}

#[test]
fn can_create_todo_on_fresh_store() {
    let mut s = Store::new();
    assert!(s.can_create_todo());
    let almost = Store::from_rows(vec![todo(i32::MAX - 1, "x")], Vec::new()).ok().unwrap();
    assert!(almost.can_create_todo());
    create(&mut s, "x");
    assert!(s.can_create_todo());
}
