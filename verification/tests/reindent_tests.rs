use srclint::reindent::reindent_multiline;

fn reindent(s: &str, ignore_first: bool, indent: Option<usize>) -> String {
    String::from_utf8(reindent_multiline(s.as_bytes(), ignore_first, indent)).unwrap()
}

#[test]
fn test_reindent_multiline_single_line() {
    assert_eq!("", reindent("", false, None));
    assert_eq!("...", reindent("...", false, None));
    assert_eq!("...", reindent("    ...", false, None));
    assert_eq!("...", reindent("\t...", false, None));
    assert_eq!("...", reindent("\t\t...", false, None));
}

#[test]
fn test_reindent_multiline_block() {
    assert_eq!("\
    if x {
        y
    } else {
        z
    }", reindent("    if x {
            y
        } else {
            z
        }", false, None));
    assert_eq!("\
    if x {
    \ty
    } else {
    \tz
    }", reindent("    if x {
        \ty
        } else {
        \tz
        }", false, None));
}

#[test]
fn test_reindent_multiline_empty_line() {
    assert_eq!("\
    if x {
        y

    } else {
        z
    }", reindent("    if x {
            y

        } else {
            z
        }", false, None));
}

#[test]
fn test_reindent_multiline_lines_deeper() {
    assert_eq!("\
        if x {
            y
        } else {
            z
        }", reindent("\
    if x {
        y
    } else {
        z
    }", true, Some(8)));
}

#[test]
fn test_reindent_correctly_indented_is_noop() {
    let s = "if x {\n    y\n}";
    assert_eq!(s, reindent(s, false, Some(0)));
    let deeper = "    if x {\n        y\n    }";
    assert_eq!(deeper, reindent(deeper, false, Some(4)));
}

#[test]
fn test_reindent_twice_settles() {
    let once = reindent("      a\n        b", false, Some(2));
    let twice = reindent(&once, false, Some(2));
    assert_eq!(once, twice);
    assert_eq!("  a\n    b", once);
}
