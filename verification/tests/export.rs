use serial_core::export::{process_data, split_lines};

#[test]
fn split_lines_matches_line_splitting() {
    assert_eq!(split_lines("bar\n\r\nbaz\r"), vec!["bar", "", "baz\r"]);
    assert_eq!(split_lines("a\nb\n"), vec!["a", "b"]);
    assert_eq!(split_lines("a\nb"), vec!["a", "b"]);
    assert_eq!(split_lines(""), Vec::<String>::new());
    assert_eq!(split_lines("\n"), vec![""]);
    assert_eq!(split_lines("one line"), vec!["one line"]);
}

#[test]
fn process_data_builds_padded_table() {
    let titles = vec![String::from("user"), String::from("device")];
    let content = vec![String::from("a\nb\n"), String::from("x\n")];
    let table = process_data(titles, content);
    assert_eq!(table.len(), 3);
    assert_eq!(table[0], vec!["user", "device"]);
    assert_eq!(table[1], vec!["a", "x"]);
    assert_eq!(table[2], vec!["b", ""]);
}

#[test]
fn process_data_empty_buffers_give_titles_only() {
    let titles = vec![String::from("user"), String::from("device")];
    let content = vec![String::new(), String::new()];
    let table = process_data(titles, content);
    assert_eq!(table.len(), 1);
    assert_eq!(table[0], vec!["user", "device"]);
}

#[test]
fn process_data_keeps_column_order() {
    let titles = vec![String::from("left"), String::from("right")];
    let content = vec![String::from("l1\nl2"), String::from("r1")];
    let table = process_data(titles, content);
    assert_eq!(table.len(), 3);
    assert_eq!(table[1], vec!["l1", "r1"]);
    assert_eq!(table[2], vec!["l2", ""]);
}
