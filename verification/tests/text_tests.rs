use srclint::text::{brackets_hide_no_fields, fn_without_abi_position, position_before_rarrow,
    without_block_comments};

#[test]
fn test_without_block_comments_lines_without_block_comments() {
    let result = without_block_comments(vec!["/*".as_bytes(), "".as_bytes(), "*/".as_bytes()]);
    println!("result: {:?}", result);
    assert!(result.is_empty());

    let result = without_block_comments(vec![
        "".as_bytes(),
        "/*".as_bytes(),
        "".as_bytes(),
        "*/".as_bytes(),
        "#[crate_type = \"lib\"]".as_bytes(),
        "/*".as_bytes(),
        "".as_bytes(),
        "*/".as_bytes(),
        "".as_bytes(),
    ]);
    assert_eq!(result, vec![
        "".as_bytes(),
        "#[crate_type = \"lib\"]".as_bytes(),
        "".as_bytes(),
    ]);

    let result = without_block_comments(vec!["/* rust".as_bytes(), "".as_bytes(), "*/".as_bytes()]);
    assert!(result.is_empty());

    let result = without_block_comments(vec!["/* one-line comment */".as_bytes()]);
    assert!(result.is_empty());

    let result = without_block_comments(vec![
        "/* nested".as_bytes(),
        "/* multi-line".as_bytes(),
        "comment".as_bytes(),
        "*/".as_bytes(),
        "test".as_bytes(),
        "*/".as_bytes(),
    ]);
    assert!(result.is_empty());

    let result = without_block_comments(vec!["/* nested /* inline /* comment */ test */ */".as_bytes()]);
    assert!(result.is_empty());

    let result = without_block_comments(vec!["foo".as_bytes(), "bar".as_bytes(), "baz".as_bytes()]);
    assert_eq!(result, vec!["foo".as_bytes(), "bar".as_bytes(), "baz".as_bytes()]);
}

#[test]
fn test_fn_without_abi_position() {
    // a plain signature gets the ABI inserted right before `fn`
    assert_eq!(Some(0), fn_without_abi_position("fn example(a: u32) -> u32".as_bytes()));
    assert_eq!(Some(4), fn_without_abi_position("pub fn example()".as_bytes()));
    // an explicit ABI is already there
    assert_eq!(None, fn_without_abi_position("extern \"C\" fn example()".as_bytes()));
    assert_eq!(None, fn_without_abi_position("pub extern \"Rust\" fn example()".as_bytes()));
    // a commented-out `extern` does not fool the scan
    assert_eq!(Some(12), fn_without_abi_position("/* extern */fn example()".as_bytes()));
    assert_eq!(None, fn_without_abi_position("no function here".as_bytes()));
}

#[test]
fn test_brackets_hide_no_fields() {
    assert!(brackets_hide_no_fields("{}".as_bytes()));
    assert!(brackets_hide_no_fields("( /* nothing */ )".as_bytes()));
    // a field hidden behind conditional compilation betrays itself
    assert!(!brackets_hide_no_fields("{ #[cfg(feature = \"x\")] field: u8 }".as_bytes()));
}

#[test]
fn test_position_before_rarrow() {
    assert_eq!(Some(13), position_before_rarrow("fn into(self) -> () {}".as_bytes()));
    assert_eq!(Some(14), position_before_rarrow("fn into2(self)-> () {}".as_bytes()));
    assert_eq!(Some(14), position_before_rarrow("fn into3(self)   -> () {}".as_bytes()));
    assert_eq!(None, position_before_rarrow("fn no_arrow(self) {}".as_bytes()));
    assert_eq!(None, position_before_rarrow("".as_bytes()));
}
