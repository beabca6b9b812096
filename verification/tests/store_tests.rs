use taskman::store::{SortBy, TaskManager, TaskSelector};
use taskman::task::{Priority, Status, Task};

fn sample_store() -> TaskManager {
    let mut tm = TaskManager::default();
    tm.new_task("alpha", "first", Priority::Low, Status::ToDo);
    tm.new_task("beta", "second", Priority::High, Status::Doing);
    tm.new_task("gamma", "third", Priority::Medium, Status::Done);
    tm
}

#[test]
fn add_assigns_size_as_id() {
    let mut tm = TaskManager::default();
    assert_eq!(tm.len(), 0);
    tm.new_task("a", "", Priority::Low, Status::ToDo);
    tm.new_task("b", "", Priority::Low, Status::ToDo);
    assert_eq!(tm.len(), 2);
    assert_eq!(tm.tasks()[0].id(), 0);
    assert_eq!(tm.tasks()[1].id(), 1);
}

#[test]
fn add_then_get_by_id_echoes_title() {
    let mut tm = sample_store();
    let id = tm.len() as u32;
    tm.new_task("delta", "fresh", Priority::Medium, Status::ToDo);
    let t = tm.get_task_by_id(id).expect("new task must be found");
    assert_eq!(t.title, "delta");
    assert_eq!(t.description, "fresh");
}

#[test]
fn get_by_title_finds_first_match() {
    let tm = sample_store();
    let t = tm.get_task_by_title("beta").expect("beta exists");
    assert_eq!(t.id, 1);
    assert!(tm.get_task_by_title("zeta").is_none());
}

#[test]
fn remove_missing_id_is_a_noop() {
    let mut tm = sample_store();
    tm.remove_task(TaskSelector::Id(42));
    assert_eq!(tm.len(), 3);
    assert_eq!(tm.tasks()[0].title, "alpha");
    assert_eq!(tm.tasks()[1].title, "beta");
    assert_eq!(tm.tasks()[2].title, "gamma");
}

#[test]
fn remove_keeps_order_of_the_rest() {
    let mut tm = sample_store();
    tm.remove_task(TaskSelector::Id(1));
    assert_eq!(tm.len(), 2);
    assert_eq!(tm.tasks()[0].title, "alpha");
    assert_eq!(tm.tasks()[1].title, "gamma");
}

#[test]
fn remove_takes_all_matches() {
    // After a removal the next add reuses an identifier, so two tasks can
    // share one; removal by that identifier takes both.
    let mut tm = TaskManager::default();
    tm.new_task("a", "", Priority::Low, Status::ToDo);
    tm.new_task("b", "", Priority::Low, Status::ToDo);
    tm.remove_task(TaskSelector::Id(0));
    tm.new_task("c", "", Priority::Low, Status::ToDo);
    assert_eq!(tm.tasks()[0].id(), 1);
    assert_eq!(tm.tasks()[1].id(), 1);
    tm.remove_task(TaskSelector::Id(1));
    assert_eq!(tm.len(), 0);
}

#[test]
fn remove_by_title() {
    let mut tm = sample_store();
    tm.remove_task(TaskSelector::Title("alpha"));
    assert_eq!(tm.len(), 2);
    assert_eq!(tm.tasks()[0].title, "beta");
}

#[test]
fn status_change_on_missing_id_fails_and_store_is_untouched() {
    let mut tm = sample_store();
    let before: Vec<(u32, String, Priority, Status)> = tm
        .tasks()
        .iter()
        .map(|t| (t.id, t.title.clone(), t.priority, t.status))
        .collect();
    assert!(tm.change_task_status(TaskSelector::Id(99), Status::Done).is_err());
    assert!(tm.change_task_priority(TaskSelector::Id(99), Priority::High).is_err());
    let after: Vec<(u32, String, Priority, Status)> = tm
        .tasks()
        .iter()
        .map(|t| (t.id, t.title.clone(), t.priority, t.status))
        .collect();
    assert_eq!(before, after);
}

#[test]
fn status_and_priority_change_mutate_in_place() {
    let mut tm = sample_store();
    tm.change_task_status(TaskSelector::Id(0), Status::Doing).unwrap();
    tm.change_task_priority(TaskSelector::Id(0), Priority::High).unwrap();
    let t = tm.get_task_by_id(0).unwrap();
    assert_eq!(t.status, Status::Doing);
    assert_eq!(t.priority, Priority::High);
    assert_eq!(t.title, "alpha");
    assert_eq!(tm.len(), 3);
}

#[test]
fn status_filters_partition_the_store() {
    let mut tm = sample_store();
    tm.new_task("delta", "", Priority::Low, Status::Doing);
    let todo = tm.filter_task_status(Status::ToDo).len();
    let doing = tm.filter_task_status(Status::Doing).len();
    let done = tm.filter_task_status(Status::Done).len();
    assert_eq!(todo + doing + done, tm.len());
    assert_eq!(todo, 1);
    assert_eq!(doing, 2);
    assert_eq!(done, 1);
    for t in tm.filter_task_status(Status::Doing) {
        assert_eq!(t.status, Status::Doing);
    }
}

#[test]
fn log_tasks_unsorted_keeps_order_and_formats_lines() {
    let mut tm = sample_store();
    let lines = tm.log_tasks(SortBy::Unsorted);
    assert_eq!(
        lines,
        vec![
            "0. 0. [*  ] alpha".to_string(),
            "1. 1. [***] beta".to_string(),
            "2. 2. [** ] gamma".to_string(),
        ]
    );
}

#[test]
fn log_tasks_sorts_by_priority_stably() {
    let mut tm = TaskManager::default();
    tm.new_task("h1", "", Priority::High, Status::ToDo);
    tm.new_task("l1", "", Priority::Low, Status::ToDo);
    tm.new_task("h2", "", Priority::High, Status::ToDo);
    tm.new_task("m1", "", Priority::Medium, Status::ToDo);
    let lines = tm.log_tasks(SortBy::Priority);
    assert_eq!(
        lines,
        vec![
            "1. 1. [*  ] l1".to_string(),
            "3. 3. [** ] m1".to_string(),
            "0. 0. [***] h1".to_string(),
            "2. 2. [***] h2".to_string(),
        ]
    );
}

#[test]
fn log_tasks_sorts_by_id_and_title() {
    let mut tm = TaskManager::default();
    tm.new_task("b", "", Priority::Low, Status::ToDo);
    tm.new_task("a", "", Priority::Low, Status::ToDo);
    let by_title = tm.log_tasks(SortBy::Title);
    assert_eq!(by_title[0], "1. 1. [*  ] a");
    assert_eq!(by_title[1], "0. 0. [*  ] b");
    let by_id = tm.log_tasks(SortBy::Id);
    assert_eq!(by_id[0], "0. 0. [*  ] b");
    assert_eq!(by_id[1], "1. 1. [*  ] a");
}

#[test]
fn task_display_line_and_log() {
    let t = Task::new(5, "Buy milk", "two litres", Priority::Medium, Status::ToDo);
    assert_eq!(t.display_line(), "5. [** ] Buy milk");
    assert_eq!(t.log(), "5. [** ] Buy milk\ntwo litres");
    let t = Task::new(0, "x", "", Priority::Low, Status::Done);
    assert_eq!(t.display_line(), "0. [*  ] x");
    let t = Task::new(7, "y", "", Priority::High, Status::Done);
    assert_eq!(t.display_line(), "7. [***] y");
}

#[test]
fn default_attribute_values() {
    assert_eq!(Priority::default(), Priority::Low);
    assert_eq!(Status::default(), Status::ToDo);
}
