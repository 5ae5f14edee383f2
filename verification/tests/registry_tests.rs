use genesis_discovery::join_lines;
use genesis_discovery::split_lines;

fn strings(xs: &[&str]) -> Vec<String> {
    xs.iter().map(|s| String::from(*s)).collect()
}

#[test]
fn join_puts_one_address_per_line() {
    assert_eq!(join_lines(&strings(&[])), "");
    assert_eq!(join_lines(&strings(&["10.0.0.1"])), "10.0.0.1");
    assert_eq!(
        join_lines(&strings(&["10.0.0.1", "10.0.0.2", "10.0.0.3"])),
        "10.0.0.1\n10.0.0.2\n10.0.0.3"
    );
    assert_eq!(join_lines(&strings(&["a", "", "b"])), "a\n\nb");
}

#[test]
fn split_reads_one_address_per_line() {
    assert_eq!(split_lines(""), strings(&[]));
    assert_eq!(split_lines("10.0.0.1"), strings(&["10.0.0.1"]));
    assert_eq!(split_lines("10.0.0.1\n10.0.0.2"), strings(&["10.0.0.1", "10.0.0.2"]));
}

#[test]
fn split_tolerates_a_trailing_newline() {
    assert_eq!(split_lines("a\nb\n"), strings(&["a", "b"]));
    assert_eq!(split_lines("\n"), strings(&[""]));
    assert_eq!(split_lines("a\n\n"), strings(&["a", ""]));
}

#[test]
fn split_handles_carriage_return_line_endings() {
    assert_eq!(split_lines("a\r\nb"), strings(&["a", "b"]));
    assert_eq!(split_lines("a\r\nb\r\n"), strings(&["a", "b"]));
    // A carriage return not followed by a newline is part of the line.
    assert_eq!(split_lines("bare\r"), strings(&["bare\r"]));
    assert_eq!(split_lines("a\rb\nc"), strings(&["a\rb", "c"]));
}

#[test]
fn saved_list_reads_back_unchanged() {
    let nodes = strings(&["192.168.1.2", "192.168.1.7", "192.168.1.40"]);
    assert_eq!(split_lines(&join_lines(&nodes)), nodes);
    let single = strings(&["172.20.10.3"]);
    assert_eq!(split_lines(&join_lines(&single)), single);
    let none = strings(&[]);
    assert_eq!(split_lines(&join_lines(&none)), none);
}
