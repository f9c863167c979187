use todo_list::chars::to_lower;
use todo_list::chars::trim;
use todo_list::digits::parse_usize;
use todo_list::digits::usize_to_string;
use todo_list::session::Action;
use todo_list::session::action_of;
use todo_list::session::Session;
use todo_list::status::Status;
use todo_list::store::parse_content;
use todo_list::store::render_content;
use todo_list::task::Item;

fn session_of(names: &[&str]) -> Session {
    let tasks = names
        .iter()
        .map(|n| Item { text: n.to_string(), status: Status::ToDo, person: None })
        .collect();
    Session::new(tasks)
}

#[test]
fn add_task_appends_a_todo_task() {
    let mut s = session_of(&[]);
    s.add_task("  buy milk  ", "  bob  ");
    assert_eq!(s.tasks.len(), 1);
    assert_eq!(s.tasks[0].text, "buy milk");
    assert_eq!(s.tasks[0].status.symbol(), '.');
    assert_eq!(s.tasks[0].person.as_deref(), Some("bob"));
}

#[test]
fn empty_assignee_means_none_and_saves_empty_field() {
    let mut s = session_of(&[]);
    s.add_task("task", "   ");
    assert!(s.tasks[0].person.is_none());
    let content = render_content(&s.tasks);
    assert_eq!(content, ".|task|\n");
    let reloaded = parse_content(&content);
    assert_eq!(reloaded.len(), 1);
    assert!(reloaded[0].person.is_none());
}

#[test]
fn select_index_accepts_only_in_range_numbers() {
    let s = session_of(&["a", "b", "c"]);
    assert_eq!(s.select_index("1"), Some(0));
    assert_eq!(s.select_index("3"), Some(2));
    assert_eq!(s.select_index("+2"), Some(1));
    assert_eq!(s.select_index("0"), None);
    assert_eq!(s.select_index("4"), None);
    assert_eq!(s.select_index(""), None);
    assert_eq!(s.select_index("two"), None);
    assert_eq!(s.select_index("2x"), None);
    assert_eq!(s.select_index("999999999999999999999999999999"), None);
}

#[test]
fn deleting_the_second_of_three_keeps_first_and_third() {
    let mut s = session_of(&["A", "B", "C"]);
    let i = s.select_index("2").unwrap();
    s.remove_task(i);
    assert_eq!(s.tasks.len(), 2);
    assert_eq!(s.tasks[0].text, "A");
    assert_eq!(s.tasks[1].text, "C");
}

#[test]
fn out_of_range_deletion_is_rejected() {
    let s = session_of(&["A", "B", "C"]);
    assert_eq!(s.select_index("4"), None);
    assert_eq!(s.select_index("0"), None);
    assert_eq!(s.select_index("-1"), None);
    assert_eq!(s.tasks.len(), 3);
}

#[test]
fn change_status_ignores_ascii_case() {
    let mut s = session_of(&["a"]);
    s.change_status(0, "  FINISH  ");
    assert_eq!(s.tasks[0].status.symbol(), '✓');
    s.change_status(0, "Stop");
    assert_eq!(s.tasks[0].status.symbol(), '!');
    s.change_status(0, "bogus");
    assert_eq!(s.tasks[0].status.symbol(), '!');
}

#[test]
fn edit_text_replaces_trimmed_description() {
    let mut s = session_of(&["a"]);
    s.edit_text(0, "  new name  ");
    assert_eq!(s.tasks[0].text, "new name");
}

#[test]
fn edit_person_sets_and_clears() {
    let mut s = session_of(&["a"]);
    s.edit_person(0, " ana ");
    assert_eq!(s.tasks[0].person.as_deref(), Some("ana"));
    s.edit_person(0, "   ");
    assert!(s.tasks[0].person.is_none());
}

#[test]
fn twenty_tasks_page_zero_shows_first_nine() {
    let names: Vec<String> = (1..=20).map(|i| format!("t{}", i)).collect();
    let refs: Vec<&str> = names.iter().map(|s| s.as_str()).collect();
    let s = session_of(&refs);
    assert!(!s.has_prev());
    assert!(s.has_next());
    let lines = s.page_lines();
    assert_eq!(lines.len(), 9);
    assert_eq!(lines[0], "\u{1b}[90m1. [.] t1\u{1b}[0m");
    assert_eq!(lines[8], "\u{1b}[90m9. [.] t9\u{1b}[0m");
}

#[test]
fn twenty_tasks_page_two_shows_last_two() {
    let names: Vec<String> = (1..=20).map(|i| format!("t{}", i)).collect();
    let refs: Vec<&str> = names.iter().map(|s| s.as_str()).collect();
    let mut s = session_of(&refs);
    s.next_page();
    s.next_page();
    assert_eq!(s.page, 2);
    assert!(s.has_prev());
    assert!(!s.has_next());
    let lines = s.page_lines();
    assert_eq!(lines.len(), 2);
    assert_eq!(lines[0], "\u{1b}[90m19. [.] t19\u{1b}[0m");
    assert_eq!(lines[1], "\u{1b}[90m20. [.] t20\u{1b}[0m");
}

#[test]
fn page_turns_stop_at_the_ends() {
    let mut s = session_of(&["a", "b"]);
    s.prev_page();
    assert_eq!(s.page, 0);
    s.next_page();
    assert_eq!(s.page, 0);
    let names: Vec<String> = (1..=10).map(|i| format!("t{}", i)).collect();
    let refs: Vec<&str> = names.iter().map(|s| s.as_str()).collect();
    let mut big = session_of(&refs);
    big.next_page();
    assert_eq!(big.page, 1);
    big.next_page();
    assert_eq!(big.page, 1);
    big.prev_page();
    assert_eq!(big.page, 0);
}

#[test]
fn menu_choices_map_to_actions() {
    assert_eq!(action_of("1"), Action::AddTask);
    assert_eq!(action_of("2"), Action::ChangeStatus);
    assert_eq!(action_of("3"), Action::RemoveTask);
    assert_eq!(action_of("4"), Action::EditText);
    assert_eq!(action_of("5"), Action::EditPerson);
    assert_eq!(action_of("a"), Action::PrevPage);
    assert_eq!(action_of("e"), Action::NextPage);
    assert_eq!(action_of("q"), Action::Quit);
    assert_eq!(action_of("quit"), Action::Quit);
    assert_eq!(action_of("exit"), Action::Quit);
    assert_eq!(action_of("x"), Action::Invalid);
    assert_eq!(action_of(""), Action::Invalid);
    assert_eq!(action_of("12"), Action::Invalid);
}

#[test]
fn numbers_render_in_decimal() {
    assert_eq!(usize_to_string(0), "0");
    assert_eq!(usize_to_string(9), "9");
    assert_eq!(usize_to_string(42), "42");
    assert_eq!(usize_to_string(1009), "1009");
}

#[test]
fn parse_usize_follows_the_standard_parser() {
    assert_eq!(parse_usize("0"), Some(0));
    assert_eq!(parse_usize("123"), Some(123));
    assert_eq!(parse_usize("+7"), Some(7));
    assert_eq!(parse_usize(""), None);
    assert_eq!(parse_usize("+"), None);
    assert_eq!(parse_usize("-1"), None);
    assert_eq!(parse_usize("1 2"), None);
    assert_eq!(parse_usize("999999999999999999999999999999"), None);
    assert_eq!(parse_usize("18446744073709551615"), "18446744073709551615".parse::<usize>().ok());
}

#[test]
fn trim_and_lowercase_helpers() {
    assert_eq!(trim("  a b  "), "a b");
    assert_eq!(trim("\t\n x \r\n"), "x");
    assert_eq!(trim("   "), "");
    assert_eq!(trim("\u{a0}nbsp\u{a0}"), "nbsp");
    assert_eq!(to_lower("FiNiSh"), "finish");
    assert_eq!(to_lower("GRÖSSE"), "grÖsse");
}

#[test]
fn nine_tasks_fit_one_page() {
    let names: Vec<String> = (1..=9).map(|i| format!("t{}", i)).collect();
    let refs: Vec<&str> = names.iter().map(|s| s.as_str()).collect();
    let s = session_of(&refs);
    assert!(!s.has_next());
    assert_eq!(s.page_lines().len(), 9);
}
