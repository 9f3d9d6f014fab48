use cargo_valgrind::scan::number;
use cargo_valgrind::{decimal, describe, lines, Frame, Leak};

fn frame(function: &str, file: Option<&str>, line: Option<u64>) -> Frame {
    Frame { function: function.to_string(), file: file.map(|name| name.to_string()), line }
}

#[test]
fn decimal_writes_numbers() {
    assert_eq!(decimal(0), "0");
    assert_eq!(decimal(7), "7");
    assert_eq!(decimal(10), "10");
    assert_eq!(decimal(1024), "1024");
    assert_eq!(decimal(9876543210), "9876543210");
    assert_eq!(decimal(u64::MAX), "18446744073709551615");
}

#[test]
fn decimal_is_read_back() {
    for value in [0u64, 1, 9, 10, 99, 100, 12345, u64::MAX - 1, u64::MAX] {
        let digits: Vec<char> = decimal(value).chars().collect();
        assert_eq!(number(&digits), Some(value));
        assert_eq!(decimal(value), value.to_string());
    }
}

#[test]
fn frames_are_described() {
    assert_eq!(describe(&frame("malloc", None, None)), "malloc");
    assert_eq!(describe(&frame("main", Some("main.rs"), None)), "main (main.rs)");
    assert_eq!(describe(&frame("main", Some("main.rs"), Some(31))), "main (main.rs:31)");
    assert_eq!(describe(&frame("main", None, Some(31))), "main");
}

#[test]
fn leaks_are_shown_line_by_line() {
    let leak = Leak::new(
        48,
        vec![frame("malloc", None, None), frame("a::main", Some("main.rs"), Some(3))],
    );
    assert_eq!(lines(&leak), vec!["Leaked 48 bytes", "at malloc", "at a::main (main.rs:3)"]);
    assert_eq!(lines(&Leak::new(0, Vec::new())), vec!["Leaked 0 bytes"]);
}
