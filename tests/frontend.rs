use kind_checker::cli::{Cli, Command};
use kind_checker::lexer::{EncodeSequence, Lexer, SyntaxDiagnostic};

fn lexer(s: &str) -> Lexer {
    Lexer::new(s.chars().collect(), 0)
}

#[test]
fn lex_plain_char() {
    let mut l = lexer("a'");
    assert_eq!(l.lex_char().unwrap(), 'a');
    assert_eq!(l.pos, 1);
}

#[test]
fn lex_escapes() {
    assert_eq!(lexer("\\n").lex_char().unwrap(), '\n');
    assert_eq!(lexer("\\'").lex_char().unwrap(), '\'');
    assert_eq!(lexer("\\x41").lex_char().unwrap(), 'A');
    assert_eq!(lexer("\\u00e9").lex_char().unwrap(), 'é');
}

#[test]
fn lex_char_errors() {
    assert!(matches!(lexer("").lex_char(), Err(SyntaxDiagnostic::UnfinishedChar(_))));
    assert!(matches!(lexer("\\").lex_char(), Err(SyntaxDiagnostic::UnfinishedString(_))));
    assert!(matches!(lexer("\\xZZ").lex_char(), Err(SyntaxDiagnostic::InvalidEscapeSequence(..))));
    assert!(matches!(lexer("\\uD800").lex_char(), Err(SyntaxDiagnostic::InvalidEscapeSequence(..))));
}

fn cli(entrypoint: Option<&str>, command: Command) -> Cli {
    Cli {
        config: None,
        debug: false,
        warning: false,
        no_color: false,
        tids: None,
        trace: false,
        ascii: false,
        entrypoint: entrypoint.map(|s| s.to_string()),
        root: None,
        command,
    }
}

#[test]
fn cli_entrypoints_and_defaults() {
    let c = cli(Some("Test"), Command::Check { file: "a.kind2".to_string() });
    assert_eq!(c.entrypoints(), vec!["Main".to_string(), "Test".to_string()]);
    assert_eq!(c.root_dir(), ".");
    assert_eq!(c.command.file(), "a.kind2");
    let k = cli(None, Command::ToKDL { file: "b".to_string(), namespace: Some("ns".to_string()) });
    assert_eq!(k.entrypoints(), vec!["Main".to_string()]);
    assert_eq!(k.namespace(), "ns");
}

#[test]
fn lex_char_end_of_input_stays() {
    let mut l = Lexer::new(vec!['a'], 2);
    l.pos = 1;
    match l.lex_char() {
        Err(SyntaxDiagnostic::UnfinishedChar(r)) => {
            assert_eq!(r, kind_checker::range::Range::new(2, 1, 1));
        },
        other => panic!("unexpected {:?}", other),
    }
    assert_eq!(l.pos, 1);
}

#[test]
fn lex_escape_error_kinds() {
    assert!(matches!(lexer("\\x4").lex_char(), Err(SyntaxDiagnostic::InvalidEscapeSequence(EncodeSequence::Hexa, _))));
    assert!(matches!(lexer("\\u12G4").lex_char(), Err(SyntaxDiagnostic::InvalidEscapeSequence(EncodeSequence::Unicode, _))));
}
