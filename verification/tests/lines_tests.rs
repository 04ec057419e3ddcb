use oxide_explorer::lines::{join, keep_nonempty, lines_of, nonempty_lines, split_text};

fn strings(v: &[&str]) -> Vec<String> {
    v.iter().map(|s| s.to_string()).collect()
}

#[test]
fn split_keeps_empty_pieces() {
    assert_eq!(split_text("a,,b", ','), strings(&["a", "", "b"]));
    assert_eq!(split_text("", ','), strings(&[""]));
    assert_eq!(split_text(",", ','), strings(&["", ""]));
    assert_eq!(split_text("abc", ','), strings(&["abc"]));
}

#[test]
fn split_agrees_with_std() {
    for s in ["a,b,c", ",x,", "", ",,", "no separator", "é,ü,"] {
        let expected: Vec<String> = s.split(',').map(String::from).collect();
        assert_eq!(split_text(s, ','), expected);
    }
}

#[test]
fn lines_follow_str_lines() {
    for s in ["a\r\nb\n\nc", "x\n", "", "a\r", "\n", "one", "a\n\r\nb\r\n", "\r\n\r\n"] {
        let expected: Vec<String> = s.lines().map(String::from).collect();
        assert_eq!(lines_of(s), expected, "input {s:?}");
    }
}

#[test]
fn nonempty_lines_skip_blank_ones() {
    assert_eq!(nonempty_lines("\n/a\n\n/b\n"), strings(&["/a", "/b"]));
    assert_eq!(nonempty_lines(""), Vec::<String>::new());
    assert_eq!(nonempty_lines("\r\n"), Vec::<String>::new());
}

#[test]
fn keep_nonempty_drops_empty_strings() {
    assert_eq!(keep_nonempty(strings(&["", "a", "", "b", ""])), strings(&["a", "b"]));
}

#[test]
fn join_puts_separator_between() {
    assert_eq!(join(&strings(&["a", "b", "c"]), "\n"), "a\nb\nc");
    assert_eq!(join(&strings(&["only"]), ", "), "only");
    assert_eq!(join(&Vec::new(), ","), "");
}

#[test]
fn saved_lines_read_back_unchanged() {
    let paths = strings(&["/home/u/Documents", "/tmp", "/mnt/usb stick"]);
    let text = join(&paths, "\n");
    assert_eq!(nonempty_lines(&text), paths);
    let none: Vec<String> = Vec::new();
    assert_eq!(nonempty_lines(&join(&none, "\n")), none);
}
