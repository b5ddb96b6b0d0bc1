use virust::templates::chat::{chat_entry, receive_message, ChatEntry, ChatHistory, ChatMessage, HISTORY_LIMIT};
use virust::templates::fullstack::{home_page_data, CreateTodoRequest, TodoList};
use virust::templates::todo;

fn entry(i: usize) -> ChatEntry {
    ChatEntry { id: i.to_string(), username: "u".to_string(), message: format!("m{}", i), timestamp: i as i64 }
}

#[test]
fn history_keeps_the_latest_messages() {
    let mut h = ChatHistory::new();
    for i in 0..HISTORY_LIMIT + 5 {
        h.record(entry(i));
    }
    let e = h.entries();
    assert_eq!(e.len(), HISTORY_LIMIT);
    assert_eq!(e[0].id, "5");
    assert_eq!(e[e.len() - 1].id, (HISTORY_LIMIT + 4).to_string());
}

#[test]
fn chat_messages_are_acknowledged_and_recorded() {
    let mut h = ChatHistory::new();
    let (resp, logged) = receive_message(
        &mut h,
        ChatMessage { username: "ann".to_string(), message: "hi".to_string() },
    );
    assert!(resp.ok);
    assert_eq!(resp.message.as_deref(), Some("Message received"));
    assert_eq!(logged.username, "ann");
    assert_eq!(logged.id.len(), 36);
    // Recorded after 2020-01-01.
    assert!(logged.timestamp > 1_577_836_800);
    assert_eq!(h.entries().len(), 1);
    assert_eq!(h.entries()[0].message, "hi");
    let copy = chat_entry(&ChatMessage { username: "b".to_string(), message: "x".to_string() }, "id".to_string(), 7);
    assert_eq!((copy.id.as_str(), copy.username.as_str(), copy.message.as_str(), copy.timestamp), ("id", "b", "x", 7));
}

#[test]
fn fullstack_todos() {
    let mut list = TodoList::new();
    let t = list.create(CreateTodoRequest { title: "write".to_string(), description: None });
    assert_eq!(t.title, "write");
    assert!(!t.completed);
    assert_eq!(t.id.len(), 36);
    list.add(CreateTodoRequest { title: "b".to_string(), description: Some("d".to_string()) }, "x".to_string(), 3);
    assert_eq!(list.todos.len(), 2);
    assert_eq!(list.todos[1].id, "x");
    assert_eq!(list.todos[1].created_at, 3);
}

#[test]
fn todo_replies_and_home_page() {
    let r = todo::todo_response(
        "1".to_string(),
        todo::CreateTodoRequest { title: "t".to_string(), description: Some("d".to_string()) },
        9,
    );
    assert_eq!(r.id, "1");
    assert_eq!(r.title, "t");
    assert_eq!(r.description.as_deref(), Some("d"));
    assert!(!r.completed);
    assert_eq!(r.created_at, 9);
    let home = home_page_data();
    assert_eq!(home.title, "Welcome to {{project_name}}");
    assert_eq!(home.features.len(), 5);
    assert_eq!(home.features[4], "TypeScript + Tailwind");
}
