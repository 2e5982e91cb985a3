//! The parser: a recursive-descent consumer of the token sequence with one
//! token of lookahead, producing a single typed tree rooted at a `Program`
//! node.
//!
//! Each grammar production is modelled by a spec-level function
//! (`spec_parse_expression`, `spec_parse_condition`, `spec_parse_statement`,
//! `spec_parse_statements`, `spec_parse_program`) over the token models, and
//! each executable `parse_*` method is proved to return exactly what its
//! model returns — the built node and the new cursor position on success,
//! the same error value on failure. Any grammar violation aborts the whole
//! parse; no partial tree escapes.

use vstd::prelude::*;

use crate::ast::AstNode;
use crate::ast::SpecNode;
use crate::ast::lemma_view_nodes;
use crate::ast::view_nodes;
use crate::ast::wf_node;
use crate::ast::wf_stmts;
use crate::token::Token;
use crate::token::TokenKind;
use crate::token::TokenModel;
use crate::token::push_char;
use crate::token::tokens_model;
use crate::token::wf_tokens;

verus! {

/// The grammar position at which no production matched.
#[derive(Clone, Copy, PartialEq, Eq, Structural, Debug)]
pub enum SyntaxContext {
    Expression,
    Condition,
    Statement,
    Program,
}

/// A failure of the parser. Every failure is fatal: the parse aborts at the
/// first violation and returns no partial tree.
#[derive(Clone, Copy, PartialEq, Eq, Structural, Debug)]
pub enum ParseError {
    /// `expect` saw a token of the wrong kind, at the token's position.
    UnexpectedToken { line: usize, column: usize, found: TokenKind },
    /// No production matched the current token in the given grammar
    /// position.
    SyntaxError { context: SyntaxContext, line: usize, column: usize, found: TokenKind },
}

/// The mathematical model of a [`ParseError`].
pub enum ParseErrorModel {
    UnexpectedToken { line: int, column: int, found: TokenKind },
    SyntaxError { context: SyntaxContext, line: int, column: int, found: TokenKind },
}

impl View for ParseError {
    type V = ParseErrorModel;

    open spec fn view(&self) -> ParseErrorModel {
        match *self {
            ParseError::UnexpectedToken { line, column, found } => ParseErrorModel::UnexpectedToken {
                line: line as int,
                column: column as int,
                found,
            },
            ParseError::SyntaxError { context, line, column, found } => ParseErrorModel::SyntaxError {
                context,
                line: line as int,
                column: column as int,
                found,
            },
        }
    }
}

/// The error `expect` reports at token `i`.
pub open spec fn unexpected_token_err(t: Seq<TokenModel>, i: int) -> ParseErrorModel {
    ParseErrorModel::UnexpectedToken { line: t[i].line, column: t[i].column, found: t[i].kind }
}

/// The error a production reports when nothing matches token `i`.
pub open spec fn syntax_err(context: SyntaxContext, t: Seq<TokenModel>, i: int) -> ParseErrorModel {
    ParseErrorModel::SyntaxError {
        context,
        line: t[i].line,
        column: t[i].column,
        found: t[i].kind,
    }
}

/// The kinds that may begin an expression.
pub open spec fn is_literal_kind(k: TokenKind) -> bool {
    k == TokenKind::Number || k == TokenKind::StringLit || k == TokenKind::Identifier
}

/// The four arithmetic operator kinds.
pub open spec fn is_binop_kind(k: TokenKind) -> bool {
    k == TokenKind::Plus || k == TokenKind::Minus || k == TokenKind::Multiply || k
        == TokenKind::Divide
}

/// The operator text an expression node records for each arithmetic
/// operator kind.
pub open spec fn binop_text(k: TokenKind) -> Seq<char> {
    if k == TokenKind::Plus {
        seq!['+']
    } else if k == TokenKind::Minus {
        seq!['-']
    } else if k == TokenKind::Multiply {
        seq!['*']
    } else {
        seq!['/']
    }
}

/// The three relational operator kinds.
pub open spec fn is_relop_kind(k: TokenKind) -> bool {
    k == TokenKind::Greater || k == TokenKind::Less || k == TokenKind::Equal
}

/// The operator text a condition node records for each relational operator
/// kind.
pub open spec fn relop_text(k: TokenKind) -> Seq<char> {
    if k == TokenKind::Greater {
        seq!['>']
    } else if k == TokenKind::Less {
        seq!['<']
    } else {
        seq!['=']
    }
}

/// One parse of `Expression := (NUMBER | STRING | IDENTIFIER)
/// ((PLUS|MINUS|MULTIPLY|DIVIDE) Expression)?` starting at token `i`: the
/// node and the position after it, or the first failure. The operator arm is
/// taken exactly when an operator kind follows the leading literal, so the
/// chain is right-associative by construction.
pub open spec fn spec_parse_expression(t: Seq<TokenModel>, i: int) -> Result<
    (SpecNode, int),
    ParseErrorModel,
>
    decreases t.len() - i,
{
    if 0 <= i && i < t.len() && is_literal_kind(t[i].kind) {
        if i + 1 < t.len() && is_binop_kind(t[i + 1].kind) {
            match spec_parse_expression(t, i + 2) {
                Err(e) => Err(e),
                Ok((rhs, j)) => Ok(
                    (
                        SpecNode::Expression {
                            left_token: t[i],
                            operator: Some(binop_text(t[i + 1].kind)),
                            right: Some(Box::new(rhs)),
                        },
                        j,
                    ),
                ),
            }
        } else {
            Ok((SpecNode::Expression { left_token: t[i], operator: None, right: None }, i + 1))
        }
    } else {
        Err(syntax_err(SyntaxContext::Expression, t, i))
    }
}

/// One parse of `Condition := Expression (GREATER | LESS | EQUAL)
/// Expression` starting at token `i`: exactly one relational operator
/// between two expressions.
pub open spec fn spec_parse_condition(t: Seq<TokenModel>, i: int) -> Result<
    (SpecNode, int),
    ParseErrorModel,
> {
    match spec_parse_expression(t, i) {
        Err(e) => Err(e),
        Ok((left, j)) => {
            if j < t.len() && is_relop_kind(t[j].kind) {
                match spec_parse_expression(t, j + 1) {
                    Err(e) => Err(e),
                    Ok((right, k)) => Ok(
                        (
                            SpecNode::Condition {
                                left: Box::new(left),
                                operator: relop_text(t[j].kind),
                                right: Box::new(right),
                            },
                            k,
                        ),
                    ),
                }
            } else {
                Err(syntax_err(SyntaxContext::Condition, t, j))
            }
        },
    }
}

/// One parse of a single statement starting at token `i`: a variable
/// declaration, an if statement with an optional else block, a while
/// statement, or an assignment.
pub open spec fn spec_parse_statement(t: Seq<TokenModel>, i: int) -> Result<
    (SpecNode, int),
    ParseErrorModel,
>
    decreases t.len() - i, 0int,
{
    if !(0 <= i && i < t.len()) {
        Err(syntax_err(SyntaxContext::Statement, t, i))
    } else if t[i].kind == TokenKind::Var {
        if i + 1 < t.len() && t[i + 1].kind == TokenKind::Identifier {
            Ok((SpecNode::VariableStatement { identifier: t[i + 1].text }, i + 2))
        } else {
            Err(unexpected_token_err(t, i + 1))
        }
    } else if t[i].kind == TokenKind::If {
        if !(i + 1 < t.len() && t[i + 1].kind == TokenKind::LParen) {
            Err(unexpected_token_err(t, i + 1))
        } else {
            match spec_parse_condition(t, i + 2) {
                Err(e) => Err(e),
                Ok((cond, j)) => {
                    if !(i + 2 < j && j < t.len() && t[j].kind == TokenKind::RParen) {
                        Err(unexpected_token_err(t, j))
                    } else if !(j + 1 < t.len() && t[j + 1].kind == TokenKind::LBrace) {
                        Err(unexpected_token_err(t, j + 1))
                    } else {
                        match spec_parse_statements(t, j + 2) {
                            Err(e) => Err(e),
                            Ok((stmts, k)) => {
                                if !(j + 2 < k && k < t.len() && t[k].kind == TokenKind::RBrace) {
                                    Err(unexpected_token_err(t, k))
                                } else if k + 1 < t.len() && t[k + 1].kind == TokenKind::Else {
                                    if !(k + 2 < t.len() && t[k + 2].kind == TokenKind::LBrace) {
                                        Err(unexpected_token_err(t, k + 2))
                                    } else {
                                        match spec_parse_statements(t, k + 3) {
                                            Err(e) => Err(e),
                                            Ok((estmts, m)) => {
                                                if !(m < t.len() && t[m].kind
                                                    == TokenKind::RBrace) {
                                                    Err(unexpected_token_err(t, m))
                                                } else {
                                                    Ok(
                                                        (
                                                            SpecNode::IfStatement {
                                                                condition: Box::new(cond),
                                                                block: Box::new(
                                                                    SpecNode::StatementBlock {
                                                                        statements: stmts,
                                                                    },
                                                                ),
                                                                else_block: Some(
                                                                    Box::new(
                                                                        SpecNode::StatementBlock {
                                                                            statements: estmts,
                                                                        },
                                                                    ),
                                                                ),
                                                            },
                                                            m + 1,
                                                        ),
                                                    )
                                                }
                                            },
                                        }
                                    }
                                } else {
                                    Ok(
                                        (
                                            SpecNode::IfStatement {
                                                condition: Box::new(cond),
                                                block: Box::new(
                                                    SpecNode::StatementBlock { statements: stmts },
                                                ),
                                                else_block: None,
                                            },
                                            k + 1,
                                        ),
                                    )
                                }
                            },
                        }
                    }
                },
            }
        }
    } else if t[i].kind == TokenKind::While {
        if !(i + 1 < t.len() && t[i + 1].kind == TokenKind::LParen) {
            Err(unexpected_token_err(t, i + 1))
        } else {
            match spec_parse_condition(t, i + 2) {
                Err(e) => Err(e),
                Ok((cond, j)) => {
                    if !(i + 2 < j && j < t.len() && t[j].kind == TokenKind::RParen) {
                        Err(unexpected_token_err(t, j))
                    } else if !(j + 1 < t.len() && t[j + 1].kind == TokenKind::LBrace) {
                        Err(unexpected_token_err(t, j + 1))
                    } else {
                        match spec_parse_statements(t, j + 2) {
                            Err(e) => Err(e),
                            Ok((stmts, k)) => {
                                if !(j + 2 < k && k < t.len() && t[k].kind == TokenKind::RBrace) {
                                    Err(unexpected_token_err(t, k))
                                } else {
                                    Ok(
                                        (
                                            SpecNode::WhileStatement {
                                                condition: Box::new(cond),
                                                block: Box::new(
                                                    SpecNode::StatementBlock { statements: stmts },
                                                ),
                                            },
                                            k + 1,
                                        ),
                                    )
                                }
                            },
                        }
                    }
                },
            }
        }
    } else if t[i].kind == TokenKind::Identifier {
        if !(i + 1 < t.len() && t[i + 1].kind == TokenKind::Equal) {
            Err(unexpected_token_err(t, i + 1))
        } else {
            match spec_parse_expression(t, i + 2) {
                Err(e) => Err(e),
                Ok((v, j)) => Ok(
                    (SpecNode::AssignmentStatement { identifier: t[i].text, value: Box::new(v) }, j),
                ),
            }
        }
    } else {
        Err(syntax_err(SyntaxContext::Statement, t, i))
    }
}

/// One parse of `StatementBlock := Statement (SEMICOLON Statement)*`
/// starting at token `i`: the ordered statements (always at least one) and
/// the position after them. The semicolon is strictly a separator: the
/// block ends as soon as no semicolon follows a statement.
pub open spec fn spec_parse_statements(t: Seq<TokenModel>, i: int) -> Result<
    (Seq<SpecNode>, int),
    ParseErrorModel,
>
    decreases t.len() - i, 1int,
{
    match spec_parse_statement(t, i) {
        Err(e) => Err(e),
        Ok((st, j)) => {
            if i < j && j < t.len() && t[j].kind == TokenKind::Semicolon {
                match spec_parse_statements(t, j + 1) {
                    Err(e) => Err(e),
                    Ok((rest, k)) => Ok((seq![st] + rest, k)),
                }
            } else {
                Ok((seq![st], j))
            }
        },
    }
}

/// One parse of `Program := StatementBlock EOF` starting at token `i`: the
/// root node, or the first failure.
pub open spec fn spec_parse_program(t: Seq<TokenModel>, i: int) -> Result<
    SpecNode,
    ParseErrorModel,
> {
    match spec_parse_statements(t, i) {
        Err(e) => Err(e),
        Ok((stmts, j)) => {
            if j < t.len() && t[j].kind == TokenKind::Eof {
                Ok(
                    SpecNode::Program {
                        block: Box::new(SpecNode::StatementBlock { statements: stmts }),
                    },
                )
            } else {
                Err(syntax_err(SyntaxContext::Program, t, j))
            }
        },
    }
}

/// A recursive-descent parser over an immutable token sequence and a cursor
/// index.
pub struct Parser {
    pub tokens: Vec<Token>,
    pub current_token_index: usize,
}

impl Parser {
    /// The models of this parser's tokens.
    pub open spec fn toks(self) -> Seq<TokenModel> {
        tokens_model(self.tokens@)
    }

    /// The cursor position.
    pub open spec fn idx(self) -> int {
        self.current_token_index as int
    }

    /// A parser in a usable state: a well-formed token sequence and a cursor
    /// on some token.
    pub open spec fn wf(self) -> bool {
        &&& wf_tokens(self.toks())
        &&& self.current_token_index < self.tokens@.len()
    }

    /// A parser over `tokens`, with the cursor on the first token.
    pub fn new(tokens: Vec<Token>) -> (r: Parser)
        ensures
            r.tokens@ == tokens@,
            r.current_token_index == 0,
    {
        Parser { tokens, current_token_index: 0 }
    }

    /// The token under the cursor.
    pub fn current_token(&self) -> (r: &Token)
        requires
            self.current_token_index < self.tokens@.len(),
        ensures
            r@ == self.toks()[self.idx()],
    {
        &self.tokens[self.current_token_index]
    }

    /// Whether the token under the cursor has the given kind; consumes
    /// nothing.
    pub fn peek(&self, token_type: TokenKind) -> (r: bool)
        requires
            self.current_token_index < self.tokens@.len(),
        ensures
            r == (self.toks()[self.idx()].kind == token_type),
    {
        self.current_token().kind == token_type
    }

    /// Consumes the token under the cursor and returns true iff it has the
    /// given kind; otherwise consumes nothing and returns false.
    pub fn accept(&mut self, token_type: TokenKind) -> (r: bool)
        requires
            old(self).current_token_index < old(self).tokens@.len(),
        ensures
            final(self).tokens@ == old(self).tokens@,
            r == (old(self).toks()[old(self).idx()].kind == token_type),
            r ==> final(self).current_token_index == old(self).current_token_index + 1,
            !r ==> final(self).current_token_index == old(self).current_token_index,
            r && token_type != TokenKind::Eof && wf_tokens(old(self).toks()) ==> final(self).wf(),
    {
        // pins the token count within usize, so the increment cannot overflow
        let _token_count = self.tokens.len();
        if self.peek(token_type) {
            self.current_token_index = self.current_token_index + 1;
            true
        } else {
            false
        }
    }

    /// Consumes the token under the cursor when it has the given kind;
    /// otherwise consumes nothing and reports the mismatched token at its
    /// position.
    pub fn expect(&mut self, token_type: TokenKind) -> (r: Result<(), ParseError>)
        requires
            old(self).current_token_index < old(self).tokens@.len(),
        ensures
            final(self).tokens@ == old(self).tokens@,
            match r {
                Ok(()) => old(self).toks()[old(self).idx()].kind == token_type && final(self).current_token_index == old(self).current_token_index + 1,
                Err(e) => {
                    &&& old(self).toks()[old(self).idx()].kind != token_type
                    &&& final(self).current_token_index == old(self).current_token_index
                    &&& e@ == unexpected_token_err(old(self).toks(), old(self).idx())
                },
            },
            r is Ok && token_type != TokenKind::Eof && wf_tokens(old(self).toks()) ==> final(self).wf(),
    {
        if self.accept(token_type) {
            Ok(())
        } else {
            let t = self.current_token();
            Err(ParseError::UnexpectedToken { line: t.line, column: t.column, found: t.kind })
        }
    }

    /// Parses one expression. On success the result and the new cursor
    /// position are exactly those of [`spec_parse_expression`]; on failure
    /// the error is exactly its error.
    pub fn parse_expression(&mut self) -> (r: Result<AstNode, ParseError>)
        requires
            old(self).wf(),
        ensures
            final(self).tokens@ == old(self).tokens@,
            final(self).wf(),
            old(self).current_token_index <= final(self).current_token_index,
            match r {
                Ok(node) => spec_parse_expression(old(self).toks(), old(self).idx())
                    == Ok::<(SpecNode, int), ParseErrorModel>((node@, final(self).idx())) && old(self).idx() < final(self).idx(),
                Err(e) => spec_parse_expression(old(self).toks(), old(self).idx()) == Err::<
                    (SpecNode, int),
                    ParseErrorModel,
                >(e@),
            },
        decreases self.tokens@.len() - self.current_token_index,
    {
        let left_token = self.current_token().clone();
        let matched = if self.accept(TokenKind::Number) {
            true
        } else if self.accept(TokenKind::StringLit) {
            true
        } else {
            self.accept(TokenKind::Identifier)
        };
        if matched {
            if self.accept(TokenKind::Plus) {
                let right_node = match self.parse_expression() {
                    Ok(n) => n,
                    Err(e) => {
                        return Err(e);
                    },
                };
                Ok(
                    AstNode::Expression {
                        left_token,
                        operator: Some(binop_string(TokenKind::Plus)),
                        right: Some(Box::new(right_node)),
                    },
                )
            } else if self.accept(TokenKind::Minus) {
                let right_node = match self.parse_expression() {
                    Ok(n) => n,
                    Err(e) => {
                        return Err(e);
                    },
                };
                Ok(
                    AstNode::Expression {
                        left_token,
                        operator: Some(binop_string(TokenKind::Minus)),
                        right: Some(Box::new(right_node)),
                    },
                )
            } else if self.accept(TokenKind::Multiply) {
                let right_node = match self.parse_expression() {
                    Ok(n) => n,
                    Err(e) => {
                        return Err(e);
                    },
                };
                Ok(
                    AstNode::Expression {
                        left_token,
                        operator: Some(binop_string(TokenKind::Multiply)),
                        right: Some(Box::new(right_node)),
                    },
                )
            } else if self.accept(TokenKind::Divide) {
                let right_node = match self.parse_expression() {
                    Ok(n) => n,
                    Err(e) => {
                        return Err(e);
                    },
                };
                Ok(
                    AstNode::Expression {
                        left_token,
                        operator: Some(binop_string(TokenKind::Divide)),
                        right: Some(Box::new(right_node)),
                    },
                )
            } else {
                Ok(AstNode::Expression { left_token, operator: None, right: None })
            }
        } else {
            let tkn = self.current_token();
            Err(
                ParseError::SyntaxError {
                    context: SyntaxContext::Expression,
                    line: tkn.line,
                    column: tkn.column,
                    found: tkn.kind,
                },
            )
        }
    }

    /// Parses one condition: an expression, one relational operator, and a
    /// second expression, exactly as [`spec_parse_condition`] describes.
    pub fn parse_condition(&mut self) -> (r: Result<AstNode, ParseError>)
        requires
            old(self).wf(),
        ensures
            final(self).tokens@ == old(self).tokens@,
            final(self).wf(),
            old(self).current_token_index <= final(self).current_token_index,
            match r {
                Ok(node) => spec_parse_condition(old(self).toks(), old(self).idx())
                    == Ok::<(SpecNode, int), ParseErrorModel>((node@, final(self).idx())) && old(self).idx() + 2 < final(self).idx(),
                Err(e) => spec_parse_condition(old(self).toks(), old(self).idx()) == Err::<
                    (SpecNode, int),
                    ParseErrorModel,
                >(e@),
            },
    {
        let left_node = match self.parse_expression() {
            Ok(n) => n,
            Err(e) => {
                return Err(e);
            },
        };
        let op = if self.accept(TokenKind::Greater) {
            Some(TokenKind::Greater)
        } else if self.accept(TokenKind::Less) {
            Some(TokenKind::Less)
        } else if self.accept(TokenKind::Equal) {
            Some(TokenKind::Equal)
        } else {
            None
        };
        match op {
            Some(k) => {
                let right_node = match self.parse_expression() {
                    Ok(n) => n,
                    Err(e) => {
                        return Err(e);
                    },
                };
                Ok(
                    AstNode::Condition {
                        left: Box::new(left_node),
                        operator: relop_string(k),
                        right: Box::new(right_node),
                    },
                )
            },
            None => {
                let tkn = self.current_token();
                Err(
                    ParseError::SyntaxError {
                        context: SyntaxContext::Condition,
                        line: tkn.line,
                        column: tkn.column,
                        found: tkn.kind,
                    },
                )
            },
        }
    }

    /// Parses one statement, exactly as [`spec_parse_statement`] describes.
    pub fn parse_statement(&mut self) -> (r: Result<AstNode, ParseError>)
        requires
            old(self).wf(),
        ensures
            final(self).tokens@ == old(self).tokens@,
            final(self).wf(),
            old(self).current_token_index <= final(self).current_token_index,
            match r {
                Ok(node) => spec_parse_statement(old(self).toks(), old(self).idx())
                    == Ok::<(SpecNode, int), ParseErrorModel>((node@, final(self).idx())) && old(self).idx() < final(self).idx(),
                Err(e) => spec_parse_statement(old(self).toks(), old(self).idx()) == Err::<
                    (SpecNode, int),
                    ParseErrorModel,
                >(e@),
            },
        decreases self.tokens@.len() - self.current_token_index, 0int,
    {
        if self.accept(TokenKind::Var) {
            let identifier = self.current_token().text.clone();
            match self.expect(TokenKind::Identifier) {
                Ok(()) => {},
                Err(e) => {
                    return Err(e);
                },
            }
            Ok(AstNode::VariableStatement { identifier })
        } else if self.accept(TokenKind::If) {
            match self.expect(TokenKind::LParen) {
                Ok(()) => {},
                Err(e) => {
                    return Err(e);
                },
            }
            let condition_node = match self.parse_condition() {
                Ok(n) => n,
                Err(e) => {
                    return Err(e);
                },
            };
            match self.expect(TokenKind::RParen) {
                Ok(()) => {},
                Err(e) => {
                    return Err(e);
                },
            }
            match self.expect(TokenKind::LBrace) {
                Ok(()) => {},
                Err(e) => {
                    return Err(e);
                },
            }
            let block_node = match self.parse_statement_block() {
                Ok(n) => n,
                Err(e) => {
                    return Err(e);
                },
            };
            match self.expect(TokenKind::RBrace) {
                Ok(()) => {},
                Err(e) => {
                    return Err(e);
                },
            }
            if self.accept(TokenKind::Else) {
                match self.expect(TokenKind::LBrace) {
                    Ok(()) => {},
                    Err(e) => {
                        return Err(e);
                    },
                }
                let else_block_node = match self.parse_statement_block() {
                    Ok(n) => n,
                    Err(e) => {
                        return Err(e);
                    },
                };
                match self.expect(TokenKind::RBrace) {
                    Ok(()) => {},
                    Err(e) => {
                        return Err(e);
                    },
                }
                Ok(
                    AstNode::IfStatement {
                        condition: Box::new(condition_node),
                        block: Box::new(block_node),
                        else_block: Some(Box::new(else_block_node)),
                    },
                )
            } else {
                Ok(
                    AstNode::IfStatement {
                        condition: Box::new(condition_node),
                        block: Box::new(block_node),
                        else_block: None,
                    },
                )
            }
        } else if self.accept(TokenKind::While) {
            match self.expect(TokenKind::LParen) {
                Ok(()) => {},
                Err(e) => {
                    return Err(e);
                },
            }
            let condition_node = match self.parse_condition() {
                Ok(n) => n,
                Err(e) => {
                    return Err(e);
                },
            };
            match self.expect(TokenKind::RParen) {
                Ok(()) => {},
                Err(e) => {
                    return Err(e);
                },
            }
            match self.expect(TokenKind::LBrace) {
                Ok(()) => {},
                Err(e) => {
                    return Err(e);
                },
            }
            let block_node = match self.parse_statement_block() {
                Ok(n) => n,
                Err(e) => {
                    return Err(e);
                },
            };
            match self.expect(TokenKind::RBrace) {
                Ok(()) => {},
                Err(e) => {
                    return Err(e);
                },
            }
            Ok(
                AstNode::WhileStatement {
                    condition: Box::new(condition_node),
                    block: Box::new(block_node),
                },
            )
        } else if self.peek(TokenKind::Identifier) {
            let identifier = self.current_token().text.clone();
            self.accept(TokenKind::Identifier);
            match self.expect(TokenKind::Equal) {
                Ok(()) => {},
                Err(e) => {
                    return Err(e);
                },
            }
            let value_node = match self.parse_expression() {
                Ok(n) => n,
                Err(e) => {
                    return Err(e);
                },
            };
            Ok(AstNode::AssignmentStatement { identifier, value: Box::new(value_node) })
        } else {
            let tkn = self.current_token();
            Err(
                ParseError::SyntaxError {
                    context: SyntaxContext::Statement,
                    line: tkn.line,
                    column: tkn.column,
                    found: tkn.kind,
                },
            )
        }
    }

    /// Parses one statement block: statements separated by semicolons, ending
    /// as soon as no semicolon follows, exactly as [`spec_parse_statements`]
    /// describes.
    pub fn parse_statement_block(&mut self) -> (r: Result<AstNode, ParseError>)
        requires
            old(self).wf(),
        ensures
            final(self).tokens@ == old(self).tokens@,
            final(self).wf(),
            old(self).current_token_index <= final(self).current_token_index,
            match r {
                Ok(node) => ({
                    let sp = spec_parse_statements(old(self).toks(), old(self).idx());
                    &&& sp is Ok
                    &&& node@ == SpecNode::StatementBlock { statements: sp->Ok_0.0 }
                    &&& final(self).idx() == sp->Ok_0.1
                    &&& old(self).idx() < final(self).idx()
                }),
                Err(e) => spec_parse_statements(old(self).toks(), old(self).idx()) == Err::<
                    (Seq<SpecNode>, int),
                    ParseErrorModel,
                >(e@),
            },
        decreases self.tokens@.len() - self.current_token_index, 1int,
    {
        let stmt = match self.parse_statement() {
            Ok(n) => n,
            Err(e) => {
                return Err(e);
            },
        };
        if self.accept(TokenKind::Semicolon) {
            let rest = match self.parse_statement_block() {
                Ok(n) => n,
                Err(e) => {
                    return Err(e);
                },
            };
            match rest {
                AstNode::StatementBlock { statements } => {
                    let ghost rest_vec = statements;
                    let mut statements = statements;
                    let mut combined: Vec<AstNode> = Vec::new();
                    combined.push(stmt);
                    combined.append(&mut statements);
                    proof {
                        assert(combined@ =~= seq![stmt] + rest_vec@);
                        lemma_view_nodes(combined, 0);
                        lemma_view_nodes(rest_vec, 0);
                        assert forall|k: int| 0 <= k < combined@.len() implies view_nodes(
                            combined,
                            0,
                        )[k] == (seq![stmt@] + view_nodes(rest_vec, 0))[k] by {
                            if k > 0 {
                                assert(combined@[k] == rest_vec@[k - 1]);
                            }
                        }
                        assert(view_nodes(combined, 0) =~= seq![stmt@] + view_nodes(rest_vec, 0));
                    }
                    Ok(AstNode::StatementBlock { statements: combined })
                },
                _ => vstd::pervasive::unreached(),
            }
        } else {
            let mut statements: Vec<AstNode> = Vec::new();
            statements.push(stmt);
            proof {
                lemma_view_nodes(statements, 0);
                assert(view_nodes(statements, 0) =~= seq![stmt@]);
            }
            Ok(AstNode::StatementBlock { statements })
        }
    }

    /// Parses a whole program: a statement block followed by the EOF token,
    /// exactly as [`spec_parse_program`] describes.
    pub fn parse_program(&mut self) -> (r: Result<AstNode, ParseError>)
        requires
            old(self).wf(),
        ensures
            final(self).tokens@ == old(self).tokens@,
            final(self).wf(),
            old(self).current_token_index <= final(self).current_token_index,
            match r {
                Ok(node) => spec_parse_program(old(self).toks(), old(self).idx()) == Ok::<
                    SpecNode,
                    ParseErrorModel,
                >(node@),
                Err(e) => spec_parse_program(old(self).toks(), old(self).idx()) == Err::<
                    SpecNode,
                    ParseErrorModel,
                >(e@),
            },
    {
        let block = match self.parse_statement_block() {
            Ok(n) => n,
            Err(e) => {
                return Err(e);
            },
        };
        if self.peek(TokenKind::Eof) {
            Ok(AstNode::Program { block: Box::new(block) })
        } else {
            let tkn = self.current_token();
            Err(
                ParseError::SyntaxError {
                    context: SyntaxContext::Program,
                    line: tkn.line,
                    column: tkn.column,
                    found: tkn.kind,
                },
            )
        }
    }
}

/// The operator text of an arithmetic operator kind, as a string.
fn binop_string(k: TokenKind) -> (r: String)
    requires
        is_binop_kind(k),
    ensures
        r@ == binop_text(k),
{
    let mut s = String::new();
    let c = match k {
        TokenKind::Plus => '+',
        TokenKind::Minus => '-',
        TokenKind::Multiply => '*',
        _ => '/',
    };
    push_char(&mut s, c);
    proof {
        assert(s@ =~= binop_text(k));
    }
    s
}

/// The operator text of a relational operator kind, as a string.
fn relop_string(k: TokenKind) -> (r: String)
    requires
        is_relop_kind(k),
    ensures
        r@ == relop_text(k),
{
    let mut s = String::new();
    let c = match k {
        TokenKind::Greater => '>',
        TokenKind::Less => '<',
        _ => '=',
    };
    push_char(&mut s, c);
    proof {
        assert(s@ =~= relop_text(k));
    }
    s
}


/// Prepending a well-formed statement to well-formed statements keeps them
/// well-formed, index by index.
proof fn lemma_wf_stmts_shift(st: SpecNode, rest: Seq<SpecNode>, k: int)
    requires
        0 <= k <= rest.len(),
        wf_stmts(rest, k),
    ensures
        wf_stmts(seq![st] + rest, k + 1),
    decreases rest.len() - k,
{
    if k < rest.len() {
        assert((seq![st] + rest)[k + 1] == rest[k]);
        lemma_wf_stmts_shift(st, rest, k + 1);
    }
}

/// A well-formed statement followed by well-formed statements is a
/// well-formed statement sequence.
proof fn lemma_wf_stmts_cons(st: SpecNode, rest: Seq<SpecNode>)
    requires
        wf_node(st),
        wf_stmts(rest, 0),
    ensures
        wf_stmts(seq![st] + rest, 0),
{
    lemma_wf_stmts_shift(st, rest, 0);
    assert((seq![st] + rest)[0] == st);
}

/// Every expression the parser accepts is a structurally well-formed
/// expression node.
pub proof fn lemma_parse_expression_wf(t: Seq<TokenModel>, i: int)
    requires
        spec_parse_expression(t, i) is Ok,
    ensures
        spec_parse_expression(t, i)->Ok_0.0 is Expression,
        wf_node(spec_parse_expression(t, i)->Ok_0.0),
    decreases t.len() - i,
{
    if 0 <= i && i < t.len() && is_literal_kind(t[i].kind) {
        if i + 1 < t.len() && is_binop_kind(t[i + 1].kind) {
            if spec_parse_expression(t, i + 2) is Ok {
                lemma_parse_expression_wf(t, i + 2);
            }
        }
    }
}

/// Every condition the parser accepts is a structurally well-formed
/// condition node.
pub proof fn lemma_parse_condition_wf(t: Seq<TokenModel>, i: int)
    requires
        spec_parse_condition(t, i) is Ok,
    ensures
        spec_parse_condition(t, i)->Ok_0.0 is Condition,
        wf_node(spec_parse_condition(t, i)->Ok_0.0),
{
    let r0 = spec_parse_expression(t, i);
    if r0 is Ok {
        lemma_parse_expression_wf(t, i);
        let j = r0->Ok_0.1;
        if j < t.len() && is_relop_kind(t[j].kind) {
            if spec_parse_expression(t, j + 1) is Ok {
                lemma_parse_expression_wf(t, j + 1);
            }
        }
    }
}

/// Every statement the parser accepts is a structurally well-formed
/// statement node.
pub proof fn lemma_parse_statement_wf(t: Seq<TokenModel>, i: int)
    requires
        spec_parse_statement(t, i) is Ok,
    ensures
        wf_node(spec_parse_statement(t, i)->Ok_0.0),
    decreases t.len() - i, 0int,
{
    if !(0 <= i && i < t.len()) {
    } else if t[i].kind == TokenKind::If || t[i].kind == TokenKind::While {
        if i + 1 < t.len() && t[i + 1].kind == TokenKind::LParen {
            let rc = spec_parse_condition(t, i + 2);
            if rc is Ok {
                lemma_parse_condition_wf(t, i + 2);
                let j = rc->Ok_0.1;
                if i + 2 < j && j < t.len() && t[j].kind == TokenKind::RParen && j + 1 < t.len()
                    && t[j + 1].kind == TokenKind::LBrace {
                    let rs = spec_parse_statements(t, j + 2);
                    if rs is Ok {
                        lemma_parse_statements_wf(t, j + 2);
                        assert(wf_node(SpecNode::StatementBlock { statements: rs->Ok_0.0 }));
                        let k = rs->Ok_0.1;
                        if j + 2 < k && k < t.len() && t[k].kind == TokenKind::RBrace {
                            if k + 1 < t.len() && t[k + 1].kind == TokenKind::Else {
                                if k + 2 < t.len() && t[k + 2].kind == TokenKind::LBrace {
                                    let re = spec_parse_statements(t, k + 3);
                                    if re is Ok {
                                        lemma_parse_statements_wf(t, k + 3);
                                        assert(wf_node(
                                            SpecNode::StatementBlock { statements: re->Ok_0.0 },
                                        ));
                                    }
                                }
                            }
                        }
                    }
                }
            }
        }
    } else if t[i].kind == TokenKind::Identifier {
        if i + 1 < t.len() && t[i + 1].kind == TokenKind::Equal {
            if spec_parse_expression(t, i + 2) is Ok {
                lemma_parse_expression_wf(t, i + 2);
            }
        }
    }
}

/// Every statement sequence the parser accepts is non-empty and
/// statement-by-statement well-formed.
pub proof fn lemma_parse_statements_wf(t: Seq<TokenModel>, i: int)
    requires
        spec_parse_statements(t, i) is Ok,
    ensures
        spec_parse_statements(t, i)->Ok_0.0.len() >= 1,
        wf_stmts(spec_parse_statements(t, i)->Ok_0.0, 0),
    decreases t.len() - i, 1int,
{
    let rs = spec_parse_statement(t, i);
    if rs is Ok {
        lemma_parse_statement_wf(t, i);
        let st = rs->Ok_0.0;
        let j = rs->Ok_0.1;
        if i < j && j < t.len() && t[j].kind == TokenKind::Semicolon {
            let rr = spec_parse_statements(t, j + 1);
            if rr is Ok {
                lemma_parse_statements_wf(t, j + 1);
                lemma_wf_stmts_cons(st, rr->Ok_0.0);
            }
        } else {
            assert(wf_stmts(seq![st], 1));
            assert(seq![st][0] == st);
        }
    }
}

/// Every program the parser accepts is a structurally well-formed tree:
/// the root holds one statement block, every block holds at least one
/// statement, and every expression carries an operator exactly when it
/// carries a right-hand side.
pub proof fn lemma_parse_program_wf(t: Seq<TokenModel>, i: int)
    requires
        spec_parse_program(t, i) is Ok,
    ensures
        spec_parse_program(t, i)->Ok_0 is Program,
        wf_node(spec_parse_program(t, i)->Ok_0),
{
    let rs = spec_parse_statements(t, i);
    if rs is Ok {
        lemma_parse_statements_wf(t, i);
        assert(wf_node(SpecNode::StatementBlock { statements: rs->Ok_0.0 }));
    }
}

} // verus!
