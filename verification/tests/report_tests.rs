use media_sorter::report::{failure_messages, MoveResult};

#[test]
fn only_failures_are_reported() {
    let results = vec![
        MoveResult::Moved { path: "/src/a.jpg".to_string() },
        MoveResult::Failed {
            path: "/src/b.mov".to_string(),
            message: "permission denied".to_string(),
        },
        MoveResult::Moved { path: "/src/c.png".to_string() },
        MoveResult::Failed {
            path: "/src/d.mp4".to_string(),
            message: "cross-device link".to_string(),
        },
    ];
    let messages = failure_messages(&results);
    assert_eq!(
        messages,
        vec!["permission denied".to_string(), "cross-device link".to_string()]
    );
}

#[test]
fn no_failures_no_report() {
    let results = vec![MoveResult::Moved { path: "/src/a.jpg".to_string() }];
    assert!(failure_messages(&results).is_empty());
}

#[test]
fn all_failures_are_kept_in_order() {
    let results = vec![
        MoveResult::Failed { path: "x".to_string(), message: "first".to_string() },
        MoveResult::Failed { path: "y".to_string(), message: "second".to_string() },
    ];
    let messages = failure_messages(&results);
    assert_eq!(messages, vec!["first".to_string(), "second".to_string()]);
}
