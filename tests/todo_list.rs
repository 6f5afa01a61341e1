use todo_cli::todo::{Status, Task, TodoError, TodoList};

fn list_of(descriptions: &[&str]) -> TodoList {
    let mut list = TodoList::new();
    for d in descriptions {
        list.add_tasks(d.to_string()).unwrap();
    }
    list
}

fn pairs(list: &TodoList) -> Vec<(usize, String, Status)> {
    list.list_tasks()
        .into_iter()
        .map(|(i, t)| (i, t.description.clone(), t.status))
        .collect()
}

#[test]
fn add_trims_and_appends_todo() {
    let mut list = list_of(&["first"]);
    list.add_tasks("   Buy bread \t".to_string()).unwrap();
    let listed = list.list_tasks();
    assert_eq!(listed.len(), 2);
    let (index, task) = listed[1];
    assert_eq!(index, 2);
    assert_eq!(task.description, "Buy bread");
    assert_eq!(task.status, Status::Todo);
}

#[test]
fn add_empty_or_blank_fails() {
    let mut list = list_of(&["keep"]);
    assert!(matches!(list.add_tasks(String::new()), Err(TodoError::EmptyDescription)));
    assert!(matches!(list.add_tasks("   ".to_string()), Err(TodoError::EmptyDescription)));
    assert_eq!(list.len(), 1);
}

#[test]
fn add_allows_duplicates() {
    let list = list_of(&["same", "same"]);
    assert_eq!(list.len(), 2);
}

#[test]
fn task_new_trims() {
    let t = Task::new("  walk the dog  ".to_string()).unwrap();
    assert_eq!(t.description, "walk the dog");
    assert_eq!(t.status, Status::Todo);
    assert!(!t.is_completed());
    assert!(matches!(Task::new(" \n ".to_string()), Err(TodoError::EmptyDescription)));
}

#[test]
fn task_text_shows_status() {
    let mut t = Task::new("Pay rent".to_string()).unwrap();
    assert_eq!(t.to_text(), "Pay rent [TODO]");
    t.status = Status::InProgress;
    assert_eq!(t.to_text(), "Pay rent [IN-PROGRESS]");
    t.status = Status::Completed;
    assert_eq!(t.to_text(), "Pay rent [DONE]");
    assert!(t.is_completed());
}

#[test]
fn empty_list_queries() {
    let list = TodoList::new();
    assert!(list.is_empty());
    assert_eq!(list.len(), 0);
    assert!(list.list_tasks().is_empty());
    assert!(list.filter_by_status(Status::Todo).is_empty());
}

#[test]
fn update_index_errors() {
    let mut list = list_of(&["a", "b", "c"]);
    assert!(matches!(list.update_task_status(0, Status::Completed), Err(TodoError::InvalidIndex)));
    assert!(matches!(
        list.update_task_status(4, Status::Completed),
        Err(TodoError::IndexOutOfBound(4))
    ));
    let before = pairs(&list);
    assert!(list.update_task_status(2, Status::InProgress).is_ok());
    let after = pairs(&list);
    assert_eq!(after[0], before[0]);
    assert_eq!(after[2], before[2]);
    assert_eq!(after[1], (2, "b".to_string(), Status::InProgress));
}

#[test]
fn update_from_text() {
    let mut list = list_of(&["a", "b"]);
    assert!(list.update_task_status_str(1, "DONE").is_ok());
    assert_eq!(list.tasks[0].status, Status::Completed);
    match list.update_task_status_str(1, "doing") {
        Err(TodoError::InvalidStatus(t)) => assert_eq!(t, "doing"),
        other => panic!("unexpected {:?}", other),
    }
    // the status is checked before the index
    assert!(matches!(
        list.update_task_status_str(9, "nope"),
        Err(TodoError::InvalidStatus(_))
    ));
    assert!(matches!(
        list.update_task_status_str(9, "todo"),
        Err(TodoError::IndexOutOfBound(9))
    ));
    assert!(matches!(list.update_task_status_str(0, "todo"), Err(TodoError::InvalidIndex)));
    assert_eq!(list.tasks[0].status, Status::Completed);
}

#[test]
fn remove_shifts_later_tasks() {
    let mut list = list_of(&["a", "b", "c", "d"]);
    let removed = list.remove_task(2).unwrap();
    assert_eq!(removed.description, "b");
    assert_eq!(list.len(), 3);
    assert_eq!(
        pairs(&list),
        vec![
            (1, "a".to_string(), Status::Todo),
            (2, "c".to_string(), Status::Todo),
            (3, "d".to_string(), Status::Todo),
        ]
    );
    assert!(matches!(list.remove_task(0), Err(TodoError::InvalidIndex)));
    assert!(matches!(list.remove_task(4), Err(TodoError::IndexOutOfBound(4))));
    assert_eq!(list.len(), 3);
}

#[test]
fn clear_completed_mixed() {
    let mut list = list_of(&["t", "c1", "p", "c2"]);
    list.update_task_status(2, Status::Completed).unwrap();
    list.update_task_status(3, Status::InProgress).unwrap();
    list.update_task_status(4, Status::Completed).unwrap();
    assert_eq!(list.clear_completed(), 2);
    assert_eq!(
        pairs(&list),
        vec![(1, "t".to_string(), Status::Todo), (2, "p".to_string(), Status::InProgress)]
    );
    assert_eq!(list.clear_completed(), 0);
}

#[test]
fn clear_completed_all_and_none() {
    let mut list = list_of(&["x", "y"]);
    list.update_task_status(1, Status::Completed).unwrap();
    list.update_task_status(2, Status::Completed).unwrap();
    assert_eq!(list.clear_completed(), 2);
    assert!(list.is_empty());
    let mut empty = TodoList::new();
    assert_eq!(empty.clear_completed(), 0);
}

#[test]
fn filter_keeps_original_positions() {
    let mut list = list_of(&["a", "b", "c"]);
    list.update_task_status(1, Status::InProgress).unwrap();
    list.update_task_status(3, Status::InProgress).unwrap();
    let found: Vec<(usize, String)> = list
        .filter_by_status(Status::InProgress)
        .into_iter()
        .map(|(i, t)| (i, t.description.clone()))
        .collect();
    assert_eq!(found, vec![(1, "a".to_string()), (3, "c".to_string())]);
    assert!(list.filter_by_status(Status::Completed).is_empty());
}

#[test]
fn status_parsing_aliases() {
    assert_eq!(Status::from_str("todo").unwrap(), Status::Todo);
    assert_eq!(Status::from_str("To-Do").unwrap(), Status::Todo);
    assert_eq!(Status::from_str("DONE").unwrap(), Status::Completed);
    assert_eq!(Status::from_str("completed").unwrap(), Status::Completed);
    assert_eq!(Status::from_str("in-progress").unwrap(), Status::InProgress);
    assert_eq!(Status::from_str("InProgress").unwrap(), Status::InProgress);
    match Status::from_str("doing") {
        Err(TodoError::InvalidStatus(t)) => assert_eq!(t, "doing"),
        other => panic!("unexpected {:?}", other),
    }
}

#[test]
fn status_from_lowercase_is_exact() {
    assert_eq!(Status::from_lowercase("to-do", "To-Do").unwrap(), Status::Todo);
    assert!(matches!(
        Status::from_lowercase("DONE", "DONE"),
        Err(TodoError::InvalidStatus(_))
    ));
    assert_eq!(Status::Completed.label(), "DONE");
    assert_eq!(Status::InProgress.label(), "IN-PROGRESS");
    assert_eq!(Status::Todo.label(), "TODO");
}

#[test]
fn scenario_milk_and_report() {
    let mut list = TodoList::new();
    list.add_tasks("Buy milk".to_string()).unwrap();
    list.add_tasks("Write report".to_string()).unwrap();
    list.update_task_status(2, Status::Completed).unwrap();
    assert_eq!(
        pairs(&list),
        vec![
            (1, "Buy milk".to_string(), Status::Todo),
            (2, "Write report".to_string(), Status::Completed),
        ]
    );
    let done: Vec<(usize, String, Status)> = list
        .filter_by_status(Status::Completed)
        .into_iter()
        .map(|(i, t)| (i, t.description.clone(), t.status))
        .collect();
    assert_eq!(done, vec![(2, "Write report".to_string(), Status::Completed)]);
    assert_eq!(list.clear_completed(), 1);
    assert_eq!(pairs(&list), vec![(1, "Buy milk".to_string(), Status::Todo)]);
}

#[test]
fn reload_keeps_tasks() {
    let mut list = list_of(&["one", "two", "three"]);
    list.update_task_status(2, Status::Completed).unwrap();
    list.remove_task(1).unwrap();
    let copy: Vec<Task> = list
        .tasks
        .iter()
        .map(|t| Task { description: t.description.clone(), status: t.status })
        .collect();
    let reloaded = TodoList::from_tasks(copy).unwrap();
    assert_eq!(pairs(&reloaded), pairs(&list));
}

#[test]
fn reload_rejects_bad_descriptions() {
    let blank = vec![Task { description: "  ".to_string(), status: Status::Todo }];
    assert!(matches!(TodoList::from_tasks(blank), Err(TodoError::SerializationError(_))));
    let padded = vec![Task { description: " a ".to_string(), status: Status::Todo }];
    assert!(matches!(TodoList::from_tasks(padded), Err(TodoError::SerializationError(_))));
    assert!(TodoList::from_tasks(Vec::new()).unwrap().is_empty());
}
