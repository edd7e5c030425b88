use srclint::scanner::{tokenize, token_text_of, Token, TokenKind};

fn texts(src: &str) -> Vec<String> {
    let toks: Vec<Token> = tokenize(src.as_bytes());
    toks.iter()
        .map(|t| String::from_utf8(token_text_of(src.as_bytes(), t)).unwrap())
        .collect()
}

#[test]
fn test_tokenize_concat_reproduces_input() {
    let cases = [
        "",
        "if x { y } else { z }",
        "a + b // trailing\nnext",
        "/* block */ident/*nested /* inner */ done*/",
        "weird \t\r\n  bytes ~~ !!",
        "/* unterminated",
        "// no newline at end",
    ];
    for src in cases {
        let joined: String = texts(src).concat();
        assert_eq!(src, joined);
    }
}

#[test]
fn test_tokenize_kinds_and_offsets() {
    let src = "if  x//c\n/*b*/!";
    let toks = tokenize(src.as_bytes());
    let kinds: Vec<TokenKind> = toks.iter().map(|t| t.kind).collect();
    assert_eq!(
        kinds,
        vec![
            TokenKind::Ident,
            TokenKind::Whitespace,
            TokenKind::Ident,
            TokenKind::LineComment,
            TokenKind::Whitespace,
            TokenKind::BlockComment { terminated: true },
            TokenKind::Other,
        ]
    );
    assert_eq!(toks[0].start, 0);
    assert_eq!(toks[3].start, 5);
    assert_eq!(toks[3].len, 3);
    assert_eq!(toks[5].start, 9);
    let mut pos = 0;
    for t in &toks {
        assert_eq!(t.start, pos);
        assert!(t.len > 0);
        pos += t.len;
    }
    assert_eq!(pos, src.len());
}

#[test]
fn test_tokenize_unterminated_block_comment_runs_to_end() {
    let src = "x /* never closed";
    let toks = tokenize(src.as_bytes());
    let last = toks.last().unwrap();
    assert_eq!(last.kind, TokenKind::BlockComment { terminated: false });
    assert_eq!(last.start + last.len, src.len());
}

#[test]
fn test_tokenize_nested_block_comment() {
    let src = "/* a /* b */ c */after";
    let toks = tokenize(src.as_bytes());
    assert_eq!(toks[0].kind, TokenKind::BlockComment { terminated: true });
    assert_eq!(toks[0].len, "/* a /* b */ c */".len());
    assert_eq!(toks[1].kind, TokenKind::Ident);
}
