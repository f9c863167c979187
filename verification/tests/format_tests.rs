use todo_list::status::Status;
use todo_list::store::parse_content;
use todo_list::store::parse_line;
use todo_list::store::render_content;
use todo_list::task::Item;

fn item(text: &str, status: Status, person: Option<&str>) -> Item {
    Item { text: text.to_string(), status, person: person.map(|p| p.to_string()) }
}

#[test]
fn round_trip_three_tasks() {
    let tasks = vec![
        item("buy milk", Status::Pending, Some("bob")),
        item("write report", Status::Finished, None),
        item("call back", Status::ToDo, Some("ana maria")),
    ];
    let content = render_content(&tasks);
    let loaded = parse_content(&content);
    assert_eq!(loaded.len(), 3);
    for (a, b) in tasks.iter().zip(loaded.iter()) {
        assert_eq!(a.text, b.text);
        assert_eq!(a.status.symbol(), b.status.symbol());
        assert_eq!(a.person, b.person);
    }
}

#[test]
fn rendered_text_is_line_per_task() {
    let tasks = vec![
        item("alpha", Status::Pending, Some("bob")),
        item("beta", Status::Finished, None),
    ];
    let content = render_content(&tasks);
    assert_eq!(content, "O|alpha|bob\n✓|beta|\n");
}

#[test]
fn empty_content_gives_empty_list() {
    let loaded = parse_content("");
    assert_eq!(loaded.len(), 0);
}

#[test]
fn malformed_lines_skipped_rest_parsed() {
    let content = "O|alpha|\nno delimiters here\n✓|beta|bob\nonly|one\n";
    let loaded = parse_content(content);
    assert_eq!(loaded.len(), 2);
    assert_eq!(loaded[0].text, "alpha");
    assert!(loaded[0].person.is_none());
    assert_eq!(loaded[1].text, "beta");
    assert_eq!(loaded[1].person.as_deref(), Some("bob"));
    assert_eq!(loaded[1].status.symbol(), '✓');
}

#[test]
fn unknown_symbol_defaults_to_pending() {
    let loaded = parse_content("Z|mystery|\n");
    assert_eq!(loaded.len(), 1);
    assert_eq!(loaded[0].status.symbol(), 'O');
}

#[test]
fn assignee_is_trimmed_on_load() {
    let loaded = parse_content("O|task|   bob   \n");
    assert_eq!(loaded.len(), 1);
    assert_eq!(loaded[0].person.as_deref(), Some("bob"));
}

#[test]
fn whitespace_only_assignee_means_none() {
    let loaded = parse_content("O|task|   \n");
    assert_eq!(loaded.len(), 1);
    assert!(loaded[0].person.is_none());
}

#[test]
fn parse_line_needs_two_delimiters() {
    assert!(parse_line("no bars at all").is_none());
    assert!(parse_line("one|bar").is_none());
    assert!(parse_line("O|two|bars").is_some());
}

#[test]
fn third_field_keeps_extra_delimiters() {
    let loaded = parse_content("O|task|bob|extra\n");
    assert_eq!(loaded.len(), 1);
    assert_eq!(loaded[0].text, "task");
    assert_eq!(loaded[0].person.as_deref(), Some("bob|extra"));
}

#[test]
fn final_line_without_newline_still_parses() {
    let loaded = parse_content("O|task|bob");
    assert_eq!(loaded.len(), 1);
    assert_eq!(loaded[0].person.as_deref(), Some("bob"));
}

#[test]
fn content_of_only_malformed_lines_is_empty() {
    let loaded = parse_content("nothing\njust words\n\n");
    assert_eq!(loaded.len(), 0);
}
