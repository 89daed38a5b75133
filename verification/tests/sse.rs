use ghmd::sse::sse;

#[test]
fn event_with_one_line() {
    assert_eq!(sse("update", "<h1>Hello</h1>"), "event: update\ndata: <h1>Hello</h1>\n\n");
}

#[test]
fn event_with_empty_payload_has_one_empty_field() {
    assert_eq!(sse("update", ""), "event: update\ndata: \n\n");
}

#[test]
fn event_splits_payload_into_lines() {
    assert_eq!(sse("update", "a\nb\r\nc"), "event: update\ndata: a\ndata: b\ndata: c\n\n");
}

#[test]
fn event_keeps_empty_lines_and_drops_last_ending() {
    assert_eq!(sse("update", "a\n\nb\n"), "event: update\ndata: a\ndata: \ndata: b\n\n");
    assert_eq!(sse("update", "\n"), "event: update\ndata: \n\n");
}

#[test]
fn event_keeps_carriage_return_without_line_feed() {
    assert_eq!(sse("update", "a\r"), "event: update\ndata: a\r\n\n");
    assert_eq!(sse("update", "a\rb\n"), "event: update\ndata: a\rb\n\n");
    assert_eq!(sse("update", "\r\n"), "event: update\ndata: \n\n");
}

#[test]
fn event_lines_are_those_of_the_standard_library() {
    let payloads = ["", "x", "x\n", "\n\n", "a\r\n\r\nb", "\r", "\r\r\n", "é\nü", "a\n\rb", "tail\r\n"];
    for payload in payloads {
        let mut expected = String::from("event: k");
        if payload.is_empty() {
            expected.push_str("\ndata: ");
        } else {
            for line in payload.lines() {
                expected.push_str("\ndata: ");
                expected.push_str(line);
            }
        }
        expected.push_str("\n\n");
        assert_eq!(sse("k", payload), expected);
    }
}
