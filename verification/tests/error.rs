use ghmd::error::{clone_error, from_links, ErrorData};

fn chain() -> ErrorData {
    ErrorData {
        debug: "Outer { code: 1 }".to_string(),
        display: "failed to read file".to_string(),
        source: Some(Box::new(ErrorData {
            debug: "Os { code: 2, kind: NotFound }".to_string(),
            display: "No such file or directory (os error 2)".to_string(),
            source: None,
        })),
    }
}

#[test]
fn clone_keeps_the_whole_chain() {
    let first = chain();
    let copy = clone_error(&first);
    assert_eq!(copy, first);
    assert_eq!(copy.source.unwrap().display, "No such file or directory (os error 2)");
}

#[test]
fn clone_of_a_single_error() {
    let single = ErrorData { debug: "d".to_string(), display: "s".to_string(), source: None };
    assert_eq!(clone_error(&single), single);
}

#[test]
fn links_build_the_chain_outermost_first() {
    let links = vec![
        ("Outer { code: 1 }".to_string(), "failed to read file".to_string()),
        ("Os { code: 2, kind: NotFound }".to_string(), "No such file or directory (os error 2)".to_string()),
    ];
    assert_eq!(from_links(links), Some(chain()));
}

#[test]
fn no_links_no_chain() {
    assert_eq!(from_links(Vec::new()), None);
}

#[test]
fn three_links_nest_twice() {
    let links = vec![
        ("a".to_string(), "A".to_string()),
        ("b".to_string(), "B".to_string()),
        ("c".to_string(), "C".to_string()),
    ];
    let built = from_links(links).unwrap();
    assert_eq!(built.display, "A");
    let second = built.source.unwrap();
    assert_eq!(second.debug, "b");
    let third = second.source.unwrap();
    assert_eq!(third.display, "C");
    assert_eq!(third.source, None);
}
