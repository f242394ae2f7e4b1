use lexer::Error;
use lexer::Lexer;
use lexer::rule::Rule;

const TEST_CODE: &'static str = r#"
function add(a, b)
    return a + b
end
"#;

#[derive(Debug, PartialEq, Clone)]
enum Token {
    And,
    Break,
    Do,
    Else,
    ElseIf,
    End,
    False,
    For,
    Function,
    If,
    In,
    Local,
    Nil,
    Not,
    Or,
    Repeat,
    Return,
    Then,
    True,
    Until,
    While,
    Identifier(String),
}

type Ext = fn(&str) -> Token;

fn lit(text: &str, f: Ext) -> Rule<Ext> {
    Rule::Value(Box::new(Rule::Literal(text.to_string())), f)
}

fn lua_rule() -> Rule<Ext> {
    Rule::Any(vec![
        Rule::Ignore(Box::new(Rule::Whitespace)),
        lit("and", |_| Token::And),
        lit("break", |_| Token::Break),
        lit("do", |_| Token::Do),
        lit("else", |_| Token::Else),
        lit("elseif", |_| Token::ElseIf),
        lit("end", |_| Token::End),
        lit("false", |_| Token::False),
        lit("for", |_| Token::For),
        Rule::Value(
            Box::new(Rule::Either(
                Box::new(Rule::Literal("function".to_string())),
                Box::new(Rule::Literal("func".to_string())),
            )),
            |_| Token::Function,
        ),
        lit("if", |_| Token::If),
        lit("in", |_| Token::In),
        lit("local", |_| Token::Local),
        lit("nil", |_| Token::Nil),
        lit("not", |_| Token::Not),
        lit("or", |_| Token::Or),
        lit("repeat", |_| Token::Repeat),
        lit("return", |_| Token::Return),
        lit("then", |_| Token::Then),
        lit("true", |_| Token::True),
        lit("until", |_| Token::Until),
        lit("while", |_| Token::While),
        Rule::Value(Box::new(Rule::Alphabetic), |v| {
            Token::Identifier(v.to_string())
        }),
    ])
}

fn scan(lexer: &mut Lexer<Ext>) -> Vec<Option<Token>> {
    let mut out = Vec::new();
    loop {
        match lexer.step() {
            Ok(token) => out.push(token),
            Err(_) => break,
        }
    }
    out
}

#[test]
fn it_works() {
    let mut lexer = Lexer::with_buffer(lua_rule(), TEST_CODE);
    for token in scan(&mut lexer) {
        if let Some(token) = token {
            println!("Token: {token:?}");
        }
    }
}

fn end_rule() -> Rule<Ext> {
    Rule::Any(vec![
        Rule::Value(Box::new(Rule::Literal("end".to_string())), |v| {
            Token::Identifier(v.to_string())
        }),
        Rule::Ignore(Box::new(Rule::Whitespace)),
    ])
}

#[test]
fn scan_emits_single_token_for_exact_buffer() {
    let mut lexer = Lexer::with_buffer(end_rule(), "end");
    assert_eq!(lexer.step(), Ok(None));
    assert_eq!(lexer.index, (0, 1));
    assert_eq!(lexer.step(), Ok(None));
    assert_eq!(lexer.index, (0, 2));
    assert_eq!(
        lexer.step(),
        Ok(Some(Token::Identifier("end".to_string())))
    );
    assert_eq!(lexer.index, (3, 3));
    assert!(matches!(lexer.step(), Err(Error::EndOfInput)));
}

#[test]
fn scan_consumes_surrounding_whitespace_without_tokens() {
    let mut lexer = Lexer::with_buffer(end_rule(), " end ");
    let emitted = scan(&mut lexer);
    let tokens: Vec<Token> = emitted.into_iter().flatten().collect();
    assert_eq!(tokens, vec![Token::Identifier("end".to_string())]);
}

#[test]
fn step_on_empty_buffer_reports_end_of_input() {
    let mut lexer = Lexer::new(end_rule());
    assert!(matches!(lexer.step(), Err(Error::EndOfInput)));
}

#[test]
fn reset_rebinds_buffer_and_keeps_rule() {
    let mut lexer = Lexer::with_buffer(end_rule(), "xx");
    assert_eq!(lexer.step(), Ok(None));
    lexer.reset("end");
    assert_eq!(lexer.index, (0, 0));
    let emitted = scan(&mut lexer);
    let tokens: Vec<Token> = emitted.into_iter().flatten().collect();
    assert_eq!(tokens, vec![Token::Identifier("end".to_string())]);
}

#[test]
fn unresolved_trailing_input_is_dropped() {
    let mut lexer = Lexer::with_buffer(end_rule(), "end en");
    let emitted = scan(&mut lexer);
    let tokens: Vec<Token> = emitted.into_iter().flatten().collect();
    assert_eq!(tokens, vec![Token::Identifier("end".to_string())]);
}
