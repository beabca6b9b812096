use taskman::render::Block;
use taskman::session::{Action, LookupError, TUI};
use taskman::store::TaskManager;
use taskman::task::{Priority, Status, Task};

fn fresh() -> TUI {
    TUI::new(80, 24, Ok(Vec::new())).expect("80x24 fits the layout")
}

#[test]
fn setup_rejects_tiny_terminals() {
    assert!(TUI::new(10, 5, Ok(Vec::new())).is_err());
    assert!(TUI::new(23, 24, Ok(Vec::new())).is_err());
    assert!(TUI::new(80, 11, Ok(Vec::new())).is_err());
    assert!(TUI::new(24, 12, Ok(Vec::new())).is_ok());
}

#[test]
fn setup_layout_is_fixed_by_terminal_size() {
    let tui = fresh();
    assert_eq!(tui.width, 80);
    assert_eq!(tui.height, 24);
    assert_eq!(tui.blocks.len(), 6);
    let dims: Vec<(usize, usize, usize, usize, &str)> = tui
        .blocks
        .iter()
        .map(|b| (b.x, b.y, b.width, b.height, b.title.as_str()))
        .collect();
    assert_eq!(
        dims,
        vec![
            (0, 1, 25, 12, "ToDo"),
            (26, 1, 26, 12, "Doing"),
            (53, 1, 26, 12, "Done"),
            (0, 13, 39, 4, "Errors"),
            (40, 13, 39, 4, "Commands"),
            (0, 16, 80, 7, "Show"),
        ]
    );
}

#[test]
fn setup_failed_load_reports_and_starts_empty() {
    let tui = TUI::new(80, 24, Err("could not open file 'x'...".to_string())).unwrap();
    assert_eq!(tui.tm.len(), 0);
    assert_eq!(tui.err_hist.clone_elements(), vec!["could not open file 'x'...".to_string()]);
}

#[test]
fn end_to_end_scenario() {
    let mut tui = fresh();
    assert!(!tui.should_quit());
    assert_eq!(tui.tm.len(), 0);

    let a = tui.handle_line("add \"Buy milk\" \"\" medium todo");
    assert!(matches!(a, Action::Nothing));
    assert_eq!(tui.tm.len(), 1);
    let t = tui.tm.get_task_by_id(0).expect("fresh task is found by its id");
    assert_eq!(t.id, 0);
    assert_eq!(t.title, "Buy milk");
    assert_eq!(t.priority, Priority::Medium);
    assert_eq!(t.status, Status::ToDo);

    let a = tui.handle_line("status 0 doing");
    assert!(matches!(a, Action::Nothing));
    assert_eq!(tui.tm.get_task_by_id(0).unwrap().status, Status::Doing);

    tui.refresh();
    assert!(tui.blocks[0].content.is_empty());
    assert_eq!(tui.blocks[1].content, vec!["0. [** ] Buy milk".to_string()]);
    assert!(tui.blocks[2].content.is_empty());

    let a = tui.handle_line("save");
    assert!(matches!(a, Action::SaveStore));

    // Rebuilding a store from the same field values — what a reload of the
    // persisted records does — reconstructs an identical single-task store.
    let records: Vec<Task> = tui
        .tm
        .tasks()
        .iter()
        .map(|t| Task::new(t.id, &t.title, &t.description, t.priority, t.status))
        .collect();
    let reloaded = TaskManager::from_tasks(records);
    assert_eq!(reloaded.len(), 1);
    let r = reloaded.get_task_by_id(0).unwrap();
    assert_eq!(r.title, "Buy milk");
    assert_eq!(r.description, "");
    assert_eq!(r.priority, Priority::Medium);
    assert_eq!(r.status, Status::Doing);

    let a = tui.handle_line("quit");
    assert!(matches!(a, Action::Nothing));
    assert!(tui.should_quit());
}

#[test]
fn add_then_show_echoes_the_exact_title() {
    let mut tui = fresh();
    tui.handle_line("add \"Walk the dog\" \"around the block\" high doing");
    let a = tui.handle_line("show 0");
    assert!(matches!(a, Action::Nothing));
    assert_eq!(
        tui.log_buf,
        vec!["0. [***] Walk the dog".to_string(), "around the block".to_string()]
    );
    // No lookup failure was recorded.
    assert!(tui.err_hist.clone_elements().is_empty());
}

#[test]
fn show_wraps_long_descriptions_to_the_panel_width() {
    let mut tui = fresh();
    let long = "x".repeat(100);
    tui.handle_line(&format!("add title \"{}\"", long));
    tui.handle_line("show 0");
    // The detail panel is the full 80 columns wide; text wraps at 78.
    assert_eq!(
        tui.log_buf,
        vec!["0. [*  ] title".to_string(), "x".repeat(78), "x".repeat(22)]
    );
}

#[test]
fn show_missing_task_reports_lookup_error() {
    let mut tui = fresh();
    tui.handle_line("show 5");
    assert_eq!(
        tui.err_hist.clone_elements(),
        vec!["could not find task with id '5'...".to_string()]
    );
    assert!(tui.log_buf.is_empty());
}

#[test]
fn status_change_on_missing_id_is_a_lookup_error_and_state_is_kept() {
    let mut tui = fresh();
    tui.handle_line("add one");
    tui.handle_line("status 9 done");
    assert_eq!(
        tui.err_hist.clone_elements(),
        vec!["could not find task with id '9'...".to_string()]
    );
    assert_eq!(tui.tm.len(), 1);
    assert_eq!(tui.tm.get_task_by_id(0).unwrap().status, Status::ToDo);
    tui.handle_line("priority 9 high");
    assert_eq!(tui.tm.get_task_by_id(0).unwrap().priority, Priority::Low);
}

#[test]
fn remove_of_missing_id_is_silent() {
    let mut tui = fresh();
    tui.handle_line("add one");
    let a = tui.handle_line("remove 7");
    assert!(matches!(a, Action::Nothing));
    assert_eq!(tui.tm.len(), 1);
    assert!(tui.err_hist.clone_elements().is_empty());
}

#[test]
fn parse_failures_land_in_the_error_history() {
    let mut tui = fresh();
    tui.handle_line("bogus");
    tui.handle_line("show nope");
    assert_eq!(
        tui.err_hist.clone_elements(),
        vec![
            "Invalid command 'bogus'...".to_string(),
            "Invalid <task_id> argument...".to_string(),
        ]
    );
    // Parse failures never end the session.
    assert!(!tui.should_quit());
}

#[test]
fn command_history_keeps_the_newest_lines() {
    let mut tui = fresh();
    // At 24 rows each history holds 24/6 - 2 = 2 lines.
    tui.handle_line("help");
    tui.handle_line("save");
    tui.handle_line("quit");
    assert_eq!(
        tui.cmd_hist.clone_elements(),
        vec!["save".to_string(), "quit".to_string()]
    );
}

#[test]
fn history_capacity_is_floored_at_one() {
    // At 12 rows a sixth is 2, under the border overhead, so the capacity
    // clamps to one line.
    let mut tui = TUI::new(24, 12, Ok(Vec::new())).unwrap();
    tui.handle_line("help");
    tui.handle_line("save");
    assert_eq!(tui.cmd_hist.clone_elements(), vec!["save".to_string()]);
}

#[test]
fn help_asks_for_the_help_text() {
    let mut tui = fresh();
    let a = tui.handle_line("help");
    assert!(matches!(a, Action::PrintHelp));
    assert!(!tui.should_quit());
}

#[test]
fn push_error_records_outside_failures() {
    let mut tui = fresh();
    tui.push_error("disk full".to_string());
    assert_eq!(tui.err_hist.clone_elements(), vec!["disk full".to_string()]);
}

#[test]
fn lookup_error_message_format() {
    let e = LookupError { id: 7 };
    assert_eq!(e.message(), "could not find task with id '7'...");
    let e = LookupError { id: 4294967295 };
    assert_eq!(e.message(), "could not find task with id '4294967295'...");
}

#[test]
fn blocks_render_from_refreshed_state() {
    let mut tui = fresh();
    tui.handle_line("add errand \"\" low todo");
    tui.refresh();
    let ops = tui.draw_ui();
    // 24 clearing rows, then one op per panel row.
    let panel_rows: usize = tui.blocks.iter().map(|b: &Block| b.height).sum();
    assert_eq!(ops.len(), 24 + panel_rows);
    // Every clearing row blanks the full width.
    assert_eq!(ops[0].row, 0);
    assert_eq!(ops[0].col, 0);
    assert_eq!(ops[0].text, " ".repeat(80));
    // The first panel op is the ToDo panel's top border at its origin.
    let first = &ops[24];
    assert_eq!((first.row, first.col), (1, 0));
    assert_eq!(first.text, format!("-ToDo{}", "-".repeat(20)));
}
