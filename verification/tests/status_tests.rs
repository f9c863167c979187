use todo_list::status::Status;
use todo_list::task::Item;

fn task(status: Status) -> Item {
    Item { text: "t".to_string(), status, person: None }
}

#[test]
fn symbols_of_the_five_states() {
    assert_eq!(Status::Pending.symbol(), 'O');
    assert_eq!(Status::Finished.symbol(), '✓');
    assert_eq!(Status::Stopped.symbol(), '!');
    assert_eq!(Status::Completed.symbol(), '#');
    assert_eq!(Status::ToDo.symbol(), '.');
}

#[test]
fn to_str_matches_symbol() {
    assert_eq!(Status::Pending.to_str(), "O");
    assert_eq!(Status::Finished.to_str(), "✓");
    assert_eq!(Status::Stopped.to_str(), "!");
    assert_eq!(Status::Completed.to_str(), "#");
    assert_eq!(Status::ToDo.to_str(), ".");
}

#[test]
fn from_str_reads_each_symbol() {
    assert_eq!(Status::from_str("O").symbol(), 'O');
    assert_eq!(Status::from_str("✓").symbol(), '✓');
    assert_eq!(Status::from_str("!").symbol(), '!');
    assert_eq!(Status::from_str("#").symbol(), '#');
    assert_eq!(Status::from_str(".").symbol(), '.');
}

#[test]
fn from_str_defaults_to_pending() {
    assert_eq!(Status::from_str("").symbol(), 'O');
    assert_eq!(Status::from_str("x").symbol(), 'O');
    assert_eq!(Status::from_str("OO").symbol(), 'O');
}

#[test]
fn symbol_survives_to_str_from_str() {
    for st in [Status::Pending, Status::Finished, Status::Stopped, Status::Completed, Status::ToDo]
    {
        assert_eq!(Status::from_str(st.to_str()).symbol(), st.symbol());
    }
}

#[test]
fn colors_of_the_five_states() {
    assert_eq!(Status::Pending.color(), "\u{1b}[93m");
    assert_eq!(Status::Completed.color(), "\u{1b}[92m");
    assert_eq!(Status::Finished.color(), "\u{1b}[94m");
    assert_eq!(Status::Stopped.color(), "\u{1b}[91m");
    assert_eq!(Status::ToDo.color(), "\u{1b}[90m");
}

#[test]
fn finish_keyword_sets_check_mark() {
    for st in [Status::Pending, Status::Finished, Status::Stopped, Status::Completed, Status::ToDo]
    {
        let mut it = task(st);
        it.check_task("finish");
        assert_eq!(it.status.symbol(), '✓');
    }
}

#[test]
fn bogus_keyword_changes_nothing() {
    for st in [Status::Pending, Status::Finished, Status::Stopped, Status::Completed, Status::ToDo]
    {
        let mut it = task(st);
        it.check_task("bogus");
        assert_eq!(it.status.symbol(), st.symbol());
    }
}

#[test]
fn each_keyword_selects_its_state() {
    let mut it = task(Status::ToDo);
    it.check_task("pending");
    assert_eq!(it.status.symbol(), 'O');
    it.check_task("stop");
    assert_eq!(it.status.symbol(), '!');
    it.check_task("complete");
    assert_eq!(it.status.symbol(), '#');
    it.check_task("finish");
    assert_eq!(it.status.symbol(), '✓');
    it.check_task("todo");
    assert_eq!(it.status.symbol(), '.');
}

#[test]
fn keyword_is_exact_after_lowercasing() {
    let mut it = task(Status::ToDo);
    it.check_task("finished");
    assert_eq!(it.status.symbol(), '.');
    it.check_task(" finish");
    assert_eq!(it.status.symbol(), '.');
}

#[test]
fn render_line_shows_number_symbol_text_and_assignee() {
    let it = Item {
        text: "buy milk".to_string(),
        status: Status::ToDo,
        person: Some("bob".to_string()),
    };
    assert_eq!(it.render_line(12), "\u{1b}[90m12. [.] buy milk (for: bob)\u{1b}[0m");
    let alone = Item { text: "rest".to_string(), status: Status::Finished, person: None };
    assert_eq!(alone.render_line(1), "\u{1b}[94m1. [✓] rest\u{1b}[0m");
}

#[test]
fn empty_assignee_text_shows_no_suffix() {
    let it = Item { text: "t".to_string(), status: Status::Pending, person: Some(String::new()) };
    assert_eq!(it.render_line(1), "\u{1b}[93m1. [O] t\u{1b}[0m");
}
