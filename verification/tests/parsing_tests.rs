use shroom::lexer::{Lexer, ParseError, Token};
use shroom::parser::{Ast, Expr, Parser};
use shroom::eval::eval_arg;

fn parse(input: &str) -> Result<Ast, ParseError> {
    Parser::new(input).parse()
}

fn call(command: &str, args: Vec<Vec<&str>>) -> Ast {
    Ast::Call {
        command: command.to_string(),
        args: args
            .into_iter()
            .map(|arg| arg.into_iter().map(|t| Expr::Text(t.to_string())).collect())
            .collect(),
    }
}

#[test]
fn blank_lines_parse_to_empty() {
    assert_eq!(parse(""), Ok(Ast::Empty));
    assert_eq!(parse("\n"), Ok(Ast::Empty));
    assert_eq!(parse("   \t  "), Ok(Ast::Empty));
    assert_eq!(parse(" \t\r\n \n\t"), Ok(Ast::Empty));
}

#[test]
fn single_word_is_command_without_args() {
    assert_eq!(parse("ls"), Ok(call("ls", vec![])));
    assert_eq!(parse("ls\n"), Ok(call("ls", vec![])));
    assert_eq!(parse("  a.out  \n"), Ok(call("a.out", vec![])));
}

#[test]
fn words_split_into_command_and_args() {
    assert_eq!(
        parse("cp -r /a /b\n"),
        Ok(call("cp", vec![vec!["-r"], vec!["/a"], vec!["/b"]]))
    );
}

#[test]
fn quoted_space_is_literal_not_a_separator() {
    // The quoted segment keeps its space; the three adjacent runs make one
    // single argument of three fragments, not two arguments.
    assert_eq!(
        parse("e a\"b c\"d\n"),
        Ok(call("e", vec![vec!["a", "b c", "d"]]))
    );
    let arg = vec![
        Expr::Text("a".to_string()),
        Expr::Text("b c".to_string()),
        Expr::Text("d".to_string()),
    ];
    assert_eq!(eval_arg(&arg), "ab cd");
}

#[test]
fn adjacent_quoted_and_unquoted_runs_concatenate() {
    assert_eq!(parse("a\"b c\"d"), Ok(call("a", vec![vec!["b c", "d"]])));
    let arg = vec![Expr::Text("b c".to_string()), Expr::Text("d".to_string())];
    assert_eq!(eval_arg(&arg), "b cd");
    assert_eq!(parse("e a\"b\"c"), Ok(call("e", vec![vec!["a", "b", "c"]])));
    let abc = vec![
        Expr::Text("a".to_string()),
        Expr::Text("b".to_string()),
        Expr::Text("c".to_string()),
    ];
    assert_eq!(eval_arg(&abc), "abc");
}

#[test]
fn escaped_quote_is_a_literal_quote() {
    assert_eq!(parse("e \"a\\\"b\"\n"), Ok(call("e", vec![vec!["a\"b"]])));
}

#[test]
fn escaped_backslash_is_a_literal_backslash() {
    assert_eq!(parse("e \"a\\\\b\"\n"), Ok(call("e", vec![vec!["a\\b"]])));
}

#[test]
fn backslash_before_other_characters_is_kept_literally() {
    assert_eq!(parse("e \"a\\qb\"\n"), Ok(call("e", vec![vec!["a\\qb"]])));
}

#[test]
fn empty_quoted_word_cannot_name_a_command() {
    // A command name is never empty: a line offering only an empty quoted
    // word yields the empty command, and the first non-empty word after it
    // becomes the command.
    assert_eq!(parse("\"\""), Ok(Ast::Empty));
    assert_eq!(parse("\"\"\n"), Ok(Ast::Empty));
    assert_eq!(parse("\"\" ls\n"), Ok(call("ls", vec![])));
}

#[test]
fn empty_quoted_argument_is_kept() {
    assert_eq!(parse("e \"\"\n"), Ok(call("e", vec![vec![""]])));
}

#[test]
fn unclosed_quote_fails_with_unclosed_delimiter() {
    assert_eq!(parse("\"abc"), Err(ParseError::UnclosedDelimiter));
    assert_eq!(parse("e \"abc"), Err(ParseError::UnclosedDelimiter));
}

#[test]
fn backslash_at_end_of_input_fails_with_unexpected_end() {
    assert_eq!(parse("\"abc\\"), Err(ParseError::UnexpectedEnd));
}

#[test]
fn unexpected_character_fails_the_whole_line() {
    assert_eq!(parse("ls | wc"), Err(ParseError::UnexpectedChar));
    assert_eq!(parse("!"), Err(ParseError::UnexpectedChar));
}

#[test]
fn newline_ends_the_call_and_later_lines_wait() {
    let mut parser = Parser::new("ls -l\nwc\n");
    assert_eq!(parser.parse(), Ok(call("ls", vec![vec!["-l"]])));
    assert_eq!(parser.parse(), Ok(call("wc", vec![])));
    assert_eq!(parser.parse(), Ok(Ast::Empty));
}

#[test]
fn lexer_emits_classified_tokens() {
    let mut lexer = Lexer::new("ls  -l\n\"a b\"");
    assert_eq!(lexer.next(), Some(Ok(Token::Text("ls".to_string()))));
    assert_eq!(lexer.next(), Some(Ok(Token::Whitespace)));
    assert_eq!(lexer.next(), Some(Ok(Token::Text("-l".to_string()))));
    assert_eq!(lexer.next(), Some(Ok(Token::Newline)));
    assert_eq!(lexer.next(), Some(Ok(Token::Text("a b".to_string()))));
    assert_eq!(lexer.next(), None);
}

#[test]
fn parse_error_descriptions() {
    assert_eq!(ParseError::UnclosedDelimiter.description(), "unclosed delimiter");
    assert_eq!(ParseError::UnexpectedChar.description(), "unexpected character");
    assert_eq!(ParseError::UnexpectedEnd.description(), "unexpected end of input");
}
