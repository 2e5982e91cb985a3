use toylang::ast::AstNode;
use toylang::ast::NodeKind;
use toylang::lexer::tokenize;
use toylang::lexer::get_keyword_token_type;
use toylang::lexer::get_loc_from_index;
use toylang::lexer::LexError;
use toylang::parser::ParseError;
use toylang::parser::Parser;
use toylang::parser::SyntaxContext;
use toylang::pipeline::parse_source;
use toylang::pipeline::SourceError;
use toylang::serialize::serialize;
use toylang::token::TokenKind;

fn kinds(src: &str) -> Vec<TokenKind> {
    tokenize(src).unwrap().iter().map(|t| t.kind).collect()
}

#[test]
fn tokenize_var_declaration() {
    let toks = tokenize("var x;").unwrap();
    let expect = [
        (TokenKind::Var, "var", 1, 1),
        (TokenKind::Identifier, "x", 1, 5),
        (TokenKind::Semicolon, ";", 1, 6),
        (TokenKind::Eof, "", 1, 7),
    ];
    assert_eq!(toks.len(), expect.len());
    for (tok, (kind, text, line, column)) in toks.iter().zip(expect.iter()) {
        assert_eq!(tok.kind, *kind);
        assert_eq!(tok.text, *text);
        assert_eq!(tok.line, *line);
        assert_eq!(tok.column, *column);
    }
}

#[test]
fn tokenize_expression_chain() {
    let toks = tokenize("1+2*3").unwrap();
    let expect = [
        (TokenKind::Number, "1"),
        (TokenKind::Plus, "+"),
        (TokenKind::Number, "2"),
        (TokenKind::Multiply, "*"),
        (TokenKind::Number, "3"),
        (TokenKind::Eof, ""),
    ];
    assert_eq!(toks.len(), expect.len());
    for (tok, (kind, text)) in toks.iter().zip(expect.iter()) {
        assert_eq!(tok.kind, *kind);
        assert_eq!(tok.text, *text);
    }
}

#[test]
fn expression_chain_is_right_associative() {
    let toks = tokenize("1+2*3").unwrap();
    let mut parser = Parser::new(toks);
    let node = parser.parse_expression().unwrap();
    // 1 + (2 * 3), not (1 + 2) * 3
    match node {
        AstNode::Expression { left_token, operator, right } => {
            assert_eq!(left_token.text, "1");
            assert_eq!(operator.as_deref(), Some("+"));
            match *right.unwrap() {
                AstNode::Expression { left_token, operator, right } => {
                    assert_eq!(left_token.text, "2");
                    assert_eq!(operator.as_deref(), Some("*"));
                    match *right.unwrap() {
                        AstNode::Expression { left_token, operator, right } => {
                            assert_eq!(left_token.text, "3");
                            assert!(operator.is_none());
                            assert!(right.is_none());
                        }
                        other => panic!("expected expression, got {:?}", other),
                    }
                }
                other => panic!("expected expression, got {:?}", other),
            }
        }
        other => panic!("expected expression, got {:?}", other),
    }
}

fn first_statement(source: &str) -> AstNode {
    let program = parse_source(source).unwrap();
    match program {
        AstNode::Program { block } => match *block {
            AstNode::StatementBlock { mut statements } => {
                assert!(!statements.is_empty());
                statements.remove(0)
            }
            other => panic!("expected statement block, got {:?}", other),
        },
        other => panic!("expected program, got {:?}", other),
    }
}

#[test]
fn if_with_else_has_populated_else_block() {
    let stmt = first_statement("if(a>1){x=1}else{x=2}");
    match stmt {
        AstNode::IfStatement { condition, block, else_block } => {
            match *condition {
                AstNode::Condition { operator, .. } => assert_eq!(operator, ">"),
                other => panic!("expected condition, got {:?}", other),
            }
            match *block {
                AstNode::StatementBlock { statements } => assert_eq!(statements.len(), 1),
                other => panic!("expected statement block, got {:?}", other),
            }
            assert!(else_block.is_some());
        }
        other => panic!("expected if statement, got {:?}", other),
    }
}

#[test]
fn if_without_else_has_empty_else_block() {
    let stmt = first_statement("if(a>1){x=1}");
    match stmt {
        AstNode::IfStatement { else_block, .. } => assert!(else_block.is_none()),
        other => panic!("expected if statement, got {:?}", other),
    }
}

#[test]
fn while_statement_shape() {
    let stmt = first_statement("while(x<10){x=x+1}");
    match stmt {
        AstNode::WhileStatement { condition, block } => {
            match *condition {
                AstNode::Condition { operator, .. } => assert_eq!(operator, "<"),
                other => panic!("expected condition, got {:?}", other),
            }
            match *block {
                AstNode::StatementBlock { statements } => {
                    assert_eq!(statements.len(), 1);
                    match &statements[0] {
                        AstNode::AssignmentStatement { identifier, .. } => {
                            assert_eq!(identifier, "x");
                        }
                        other => panic!("expected assignment, got {:?}", other),
                    }
                }
                other => panic!("expected statement block, got {:?}", other),
            }
        }
        other => panic!("expected while statement, got {:?}", other),
    }
}

#[test]
fn semicolon_is_strictly_a_separator() {
    // The grammar demands a statement after every semicolon, so a trailing
    // semicolon before a closing brace is rejected at the brace.
    let err = parse_source("if(a>1){x=1;}else{x=2;};").unwrap_err();
    match err {
        SourceError::Parse(ParseError::SyntaxError { context, found, .. }) => {
            assert_eq!(context, SyntaxContext::Statement);
            assert_eq!(found, TokenKind::RBrace);
        }
        other => panic!("expected a syntax error, got {:?}", other),
    }
}

#[test]
fn var_missing_identifier_reports_the_semicolon() {
    let err = parse_source("var ;").unwrap_err();
    match err {
        SourceError::Parse(ParseError::UnexpectedToken { line, column, found }) => {
            assert_eq!((line, column), (1, 5));
            assert_eq!(found, TokenKind::Semicolon);
        }
        other => panic!("expected an unexpected-token error, got {:?}", other),
    }
}

#[test]
fn unterminated_string_is_reported() {
    let err = tokenize("var s;\ns = \"abc").unwrap_err();
    assert_eq!(err, LexError::UnterminatedString { line: 2, column: 5 });
}

#[test]
fn unexpected_character_is_reported() {
    let err = tokenize("var x?\n").unwrap_err();
    assert_eq!(
        err,
        LexError::UnexpectedCharacter { ch: '?', line: 1, column: 6 }
    );
}

#[test]
fn string_token_excludes_quotes() {
    let toks = tokenize("s = \"hi there\"").unwrap();
    assert_eq!(toks[2].kind, TokenKind::StringLit);
    assert_eq!(toks[2].text, "hi there");
    assert_eq!((toks[2].line, toks[2].column), (1, 5));
}

#[test]
fn keywords_and_identifiers() {
    assert_eq!(get_keyword_token_type("var"), TokenKind::Var);
    assert_eq!(get_keyword_token_type("if"), TokenKind::If);
    assert_eq!(get_keyword_token_type("else"), TokenKind::Else);
    assert_eq!(get_keyword_token_type("while"), TokenKind::While);
    assert_eq!(get_keyword_token_type("varx"), TokenKind::Identifier);
    assert_eq!(get_keyword_token_type(""), TokenKind::Identifier);
    assert_eq!(
        kinds("while whale"),
        vec![TokenKind::While, TokenKind::Identifier, TokenKind::Eof]
    );
}

#[test]
fn positions_track_newlines() {
    let toks = tokenize("var x\nx = 1").unwrap();
    // x on line 2 starts at column 1; 1 at column 5.
    assert_eq!((toks[2].line, toks[2].column), (2, 1));
    assert_eq!((toks[4].line, toks[4].column), (2, 5));
    assert_eq!(get_loc_from_index(0, "ab\ncd"), (1, 1));
    assert_eq!(get_loc_from_index(2, "ab\ncd"), (1, 3));
    assert_eq!(get_loc_from_index(3, "ab\ncd"), (2, 1));
    assert_eq!(get_loc_from_index(5, "ab\ncd"), (2, 3));
    assert_eq!(get_loc_from_index(99, "ab\ncd"), (2, 3));
}

#[test]
fn token_kind_codes_are_fixed() {
    let all = [
        (TokenKind::Eof, 0u8),
        (TokenKind::Var, 1),
        (TokenKind::If, 2),
        (TokenKind::Else, 3),
        (TokenKind::While, 4),
        (TokenKind::LParen, 5),
        (TokenKind::RParen, 6),
        (TokenKind::LBrace, 7),
        (TokenKind::RBrace, 8),
        (TokenKind::Semicolon, 9),
        (TokenKind::Plus, 10),
        (TokenKind::Minus, 11),
        (TokenKind::Multiply, 12),
        (TokenKind::Divide, 13),
        (TokenKind::Greater, 14),
        (TokenKind::Less, 15),
        (TokenKind::Equal, 16),
        (TokenKind::Number, 17),
        (TokenKind::StringLit, 18),
        (TokenKind::Identifier, 19),
    ];
    for (kind, code) in all {
        assert_eq!(kind.code(), code);
        assert_eq!(TokenKind::from_code(code), Some(kind));
    }
    assert_eq!(TokenKind::from_code(20), None);
}

#[test]
fn node_kind_codes_are_fixed() {
    let all = [
        (NodeKind::Program, 0u8),
        (NodeKind::StatementBlock, 1),
        (NodeKind::VariableStatement, 2),
        (NodeKind::IfStatement, 3),
        (NodeKind::WhileStatement, 4),
        (NodeKind::AssignmentStatement, 5),
        (NodeKind::Condition, 6),
        (NodeKind::Expression, 7),
    ];
    for (kind, code) in all {
        assert_eq!(kind.code(), code);
        assert_eq!(NodeKind::from_code(code), Some(kind));
    }
    assert_eq!(NodeKind::from_code(8), None);
}

#[test]
fn serialize_variable_statement_program() {
    let program = parse_source("var x").unwrap();
    assert_eq!(program.kind(), NodeKind::Program);
    let out = serialize(&program);
    assert_eq!(
        out,
        "{\"type\":0,\"data\":{\"block\":{\"type\":1,\"data\":{\"statements\":[\
         {\"type\":2,\"data\":{\"identifier\":\"x\"}}]}}}}"
    );
}

#[test]
fn serialize_expression_with_token_fields() {
    let toks = tokenize("1").unwrap();
    let mut parser = Parser::new(toks);
    let node = parser.parse_expression().unwrap();
    let out = serialize(&node);
    assert_eq!(
        out,
        "{\"type\":7,\"data\":{\"leftToken\":{\"type\":17,\"value\":\"1\",\
         \"line\":1,\"column\":1},\"operator\":null,\"right\":null}}"
    );
}

#[test]
fn serialized_output_is_valid_json_with_expected_fields() {
    let program = parse_source("if(a>1){x=\"s\"}else{y=2}").unwrap();
    let out = serialize(&program);
    let value: serde_json::Value = serde_json::from_str(&out).unwrap();
    assert_eq!(value["type"], 0);
    let block = &value["data"]["block"];
    assert_eq!(block["type"], 1);
    let if_stmt = &block["data"]["statements"][0];
    assert_eq!(if_stmt["type"], 3);
    assert_eq!(if_stmt["data"]["condition"]["type"], 6);
    assert_eq!(if_stmt["data"]["condition"]["data"]["operator"], ">");
    assert_eq!(if_stmt["data"]["elseBlock"]["type"], 1);
    let assign = &if_stmt["data"]["block"]["data"]["statements"][0];
    assert_eq!(assign["type"], 5);
    assert_eq!(assign["data"]["identifier"], "x");
    let expr = &assign["data"]["value"];
    assert_eq!(expr["type"], 7);
    assert_eq!(expr["data"]["leftToken"]["type"], 18);
    assert_eq!(expr["data"]["leftToken"]["value"], "s");
    assert_eq!(expr["data"]["operator"], serde_json::Value::Null);
}

#[test]
fn string_escapes_match_json() {
    let toks = tokenize("s = \"a\\b\nc\"").unwrap();
    let mut parser = Parser::new(toks);
    let node = parser.parse_statement().unwrap();
    let out = serialize(&node);
    let value: serde_json::Value = serde_json::from_str(&out).unwrap();
    assert_eq!(value["data"]["value"]["data"]["leftToken"]["value"], "a\\b\nc");
}

#[test]
fn pipeline_is_deterministic_per_run() {
    let source = "var a;a=1+2;if(a>2){b=\"yes\"}else{b=\"no\"};while(a<9){a=a+1}";
    let first = serialize(&parse_source(source).unwrap());
    let second = serialize(&parse_source(source).unwrap());
    assert_eq!(first, second);
}

#[test]
fn empty_input_yields_only_eof_then_parse_error() {
    let toks = tokenize("").unwrap();
    assert_eq!(toks.len(), 1);
    assert_eq!(toks[0].kind, TokenKind::Eof);
    assert_eq!((toks[0].line, toks[0].column), (1, 1));
    let err = parse_source("").unwrap_err();
    match err {
        SourceError::Parse(ParseError::SyntaxError { context, found, .. }) => {
            assert_eq!(context, SyntaxContext::Statement);
            assert_eq!(found, TokenKind::Eof);
        }
        other => panic!("expected a syntax error, got {:?}", other),
    }
}

#[test]
fn condition_requires_relational_operator() {
    let err = parse_source("if(a){x=1}").unwrap_err();
    match err {
        SourceError::Parse(ParseError::SyntaxError { context, found, .. }) => {
            assert_eq!(context, SyntaxContext::Condition);
            assert_eq!(found, TokenKind::RParen);
        }
        other => panic!("expected a syntax error, got {:?}", other),
    }
}

#[test]
fn program_requires_eof_after_block() {
    let err = parse_source("x=1 y=2").unwrap_err();
    match err {
        SourceError::Parse(ParseError::SyntaxError { context, found, .. }) => {
            assert_eq!(context, SyntaxContext::Program);
            assert_eq!(found, TokenKind::Identifier);
        }
        other => panic!("expected a syntax error, got {:?}", other),
    }
}

#[test]
fn expression_rejects_operator_without_operand() {
    let err = parse_source("x=+").unwrap_err();
    match err {
        SourceError::Parse(ParseError::SyntaxError { context, found, .. }) => {
            assert_eq!(context, SyntaxContext::Expression);
            assert_eq!(found, TokenKind::Plus);
        }
        other => panic!("expected a syntax error, got {:?}", other),
    }
}

#[test]
fn trailing_identifier_run_is_emitted() {
    let toks = tokenize("var x").unwrap();
    assert_eq!(
        toks.iter().map(|t| t.kind).collect::<Vec<_>>(),
        vec![TokenKind::Var, TokenKind::Identifier, TokenKind::Eof]
    );
    assert_eq!(toks[1].text, "x");
}

#[test]
fn backspace_and_form_feed_use_short_escapes() {
    let toks = tokenize("s = \"a\u{8}b\u{c}c\"").unwrap();
    let mut parser = Parser::new(toks);
    let node = parser.parse_statement().unwrap();
    let out = serialize(&node);
    assert!(out.contains("a\\bb\\fc"));
    let value: serde_json::Value = serde_json::from_str(&out).unwrap();
    assert_eq!(value["data"]["value"]["data"]["leftToken"]["value"], "a\u{8}b\u{c}c");
}

#[test]
fn counting_sort_is_stable_on_equal_digits() {
    // equal ones digits: original relative order kept
    let mut data = vec![31, 21, 11, 32, 22];
    toylang::sorting::counting_sort(&mut data, 1);
    assert_eq!(data, vec![31, 21, 11, 32, 22]);
}
