//! The tokenizer: a four-state lexical scanner over the source characters.
//!
//! The scanner is modelled by the spec-level state machine [`spec_lex`], one
//! transition per consumed character (terminators of multi-character tokens
//! are reprocessed in the searching state without being consumed). The
//! executable [`tokenize`] is proved to return exactly what the model
//! returns. The running source position advances on every consumed
//! character: a newline increments the line and resets the column to 1, any
//! other character increments the column.

use vstd::prelude::*;
use vstd::string::StrSliceExecFns;

use crate::token::Token;
use crate::token::TokenKind;
use crate::token::TokenModel;
use crate::token::push_char;
use crate::token::tokens_model;
use crate::token::wf_tokens;

verus! {

/// A failure of the scanner.
#[derive(Clone, Copy, PartialEq, Eq, Structural, Debug)]
pub enum LexError {
    /// A character that starts no token and is not whitespace, at its
    /// 1-based source position.
    UnexpectedCharacter { ch: char, line: usize, column: usize },
    /// A string literal whose closing quote never appears; the position is
    /// that of the opening quote.
    UnterminatedString { line: usize, column: usize },
}

/// The mathematical model of a [`LexError`].
pub enum LexErrorModel {
    UnexpectedCharacter { ch: char, line: int, column: int },
    UnterminatedString { line: int, column: int },
}

impl View for LexError {
    type V = LexErrorModel;

    open spec fn view(&self) -> LexErrorModel {
        match *self {
            LexError::UnexpectedCharacter { ch, line, column } => LexErrorModel::UnexpectedCharacter {
                ch,
                line: line as int,
                column: column as int,
            },
            LexError::UnterminatedString { line, column } => LexErrorModel::UnterminatedString {
                line: line as int,
                column: column as int,
            },
        }
    }
}

/// The scanner's state: searching between tokens, or inside a string,
/// number, or identifier run.
#[derive(Clone, Copy, PartialEq, Eq, Structural, Debug)]
pub enum LexState {
    Searching,
    InString,
    InNumber,
    InIdentifier,
}

/// Ranks the states so that reprocessing a terminator (leaving a run without
/// consuming the character) decreases the rank.
pub open spec fn lex_rank(state: LexState) -> int {
    if state is Searching {
        0
    } else {
        1
    }
}

/// Whitespace: skipped by the scanner, never part of a token.
pub open spec fn is_space_char(c: char) -> bool {
    c == ' ' || c == '\n' || c == '\t'
}

/// A character of a number run.
pub open spec fn is_digit_char(c: char) -> bool {
    '0' <= c && c <= '9'
}

/// A character of an identifier run: an ASCII letter or an underscore.
pub open spec fn is_ident_char(c: char) -> bool {
    ('a' <= c && c <= 'z') || ('A' <= c && c <= 'Z') || c == '_'
}

/// The kind of a single-character punctuation or operator token, if `c` is
/// one.
pub open spec fn punct_kind(c: char) -> Option<TokenKind> {
    if c == '(' {
        Some(TokenKind::LParen)
    } else if c == ')' {
        Some(TokenKind::RParen)
    } else if c == '{' {
        Some(TokenKind::LBrace)
    } else if c == '}' {
        Some(TokenKind::RBrace)
    } else if c == ';' {
        Some(TokenKind::Semicolon)
    } else if c == '+' {
        Some(TokenKind::Plus)
    } else if c == '-' {
        Some(TokenKind::Minus)
    } else if c == '*' {
        Some(TokenKind::Multiply)
    } else if c == '/' {
        Some(TokenKind::Divide)
    } else if c == '>' {
        Some(TokenKind::Greater)
    } else if c == '<' {
        Some(TokenKind::Less)
    } else if c == '=' {
        Some(TokenKind::Equal)
    } else {
        None
    }
}

/// The kind an identifier run yields: the keyword's kind when the text is a
/// keyword, otherwise `Identifier`.
pub open spec fn keyword_kind(text: Seq<char>) -> TokenKind {
    if text == seq!['v', 'a', 'r'] {
        TokenKind::Var
    } else if text == seq!['i', 'f'] {
        TokenKind::If
    } else if text == seq!['e', 'l', 's', 'e'] {
        TokenKind::Else
    } else if text == seq!['w', 'h', 'i', 'l', 'e'] {
        TokenKind::While
    } else {
        TokenKind::Identifier
    }
}

/// The source position after consuming `c` at `(line, column)`.
pub open spec fn spec_advance(line: int, column: int, c: char) -> (int, int) {
    if c == '\n' {
        (line + 1, 1)
    } else {
        (line, column + 1)
    }
}

/// The full state of the scanner between two steps: the machine state, the
/// start index and start position of the current run, the running position,
/// and the tokens emitted so far.
pub struct LexSt {
    pub state: LexState,
    pub start: int,
    pub start_line: int,
    pub start_col: int,
    pub line: int,
    pub col: int,
    pub toks: Seq<TokenModel>,
}

/// The scanner's initial state: searching, at line 1 and column 1, with no
/// tokens emitted.
pub open spec fn init_lex_st() -> LexSt {
    LexSt {
        state: LexState::Searching,
        start: 0,
        start_line: 1,
        start_col: 1,
        line: 1,
        col: 1,
        toks: Seq::empty(),
    }
}

/// One run of the scanner from index `i` in state `st` to the end of the
/// input: the complete token sequence (ending in the one EOF token), or the
/// first failure.
pub open spec fn spec_lex(s: Seq<char>, i: int, st: LexSt) -> Result<Seq<TokenModel>, LexErrorModel>
    decreases s.len() - i, lex_rank(st.state),
{
    if i >= s.len() {
        match st.state {
            LexState::Searching => Ok(
                st.toks.push(
                    TokenModel {
                        kind: TokenKind::Eof,
                        text: Seq::empty(),
                        line: st.line,
                        column: st.col,
                    },
                ),
            ),
            LexState::InIdentifier => {
                let text = s.subrange(st.start, s.len() as int);
                Ok(
                    st.toks.push(
                        TokenModel {
                            kind: keyword_kind(text),
                            text,
                            line: st.start_line,
                            column: st.start_col,
                        },
                    ).push(
                        TokenModel {
                            kind: TokenKind::Eof,
                            text: Seq::empty(),
                            line: st.line,
                            column: st.col,
                        },
                    ),
                )
            },
            LexState::InNumber => {
                let text = s.subrange(st.start, s.len() as int);
                Ok(
                    st.toks.push(
                        TokenModel {
                            kind: TokenKind::Number,
                            text,
                            line: st.start_line,
                            column: st.start_col,
                        },
                    ).push(
                        TokenModel {
                            kind: TokenKind::Eof,
                            text: Seq::empty(),
                            line: st.line,
                            column: st.col,
                        },
                    ),
                )
            },
            LexState::InString => Err(
                LexErrorModel::UnterminatedString { line: st.start_line, column: st.start_col },
            ),
        }
    } else {
        let c = s[i];
        let adv = spec_advance(st.line, st.col, c);
        match st.state {
            LexState::Searching => match punct_kind(c) {
                Some(k) => spec_lex(
                    s,
                    i + 1,
                    LexSt {
                        state: LexState::Searching,
                        start: st.start,
                        start_line: st.start_line,
                        start_col: st.start_col,
                        line: adv.0,
                        col: adv.1,
                        toks: st.toks.push(
                            TokenModel { kind: k, text: seq![c], line: st.line, column: st.col },
                        ),
                    },
                ),
                None => {
                    if c == '"' {
                        spec_lex(
                            s,
                            i + 1,
                            LexSt {
                                state: LexState::InString,
                                start: i + 1,
                                start_line: st.line,
                                start_col: st.col,
                                line: adv.0,
                                col: adv.1,
                                toks: st.toks,
                            },
                        )
                    } else if is_digit_char(c) {
                        spec_lex(
                            s,
                            i + 1,
                            LexSt {
                                state: LexState::InNumber,
                                start: i,
                                start_line: st.line,
                                start_col: st.col,
                                line: adv.0,
                                col: adv.1,
                                toks: st.toks,
                            },
                        )
                    } else if is_ident_char(c) {
                        spec_lex(
                            s,
                            i + 1,
                            LexSt {
                                state: LexState::InIdentifier,
                                start: i,
                                start_line: st.line,
                                start_col: st.col,
                                line: adv.0,
                                col: adv.1,
                                toks: st.toks,
                            },
                        )
                    } else if is_space_char(c) {
                        spec_lex(
                            s,
                            i + 1,
                            LexSt {
                                state: LexState::Searching,
                                start: st.start,
                                start_line: st.start_line,
                                start_col: st.start_col,
                                line: adv.0,
                                col: adv.1,
                                toks: st.toks,
                            },
                        )
                    } else {
                        Err(
                            LexErrorModel::UnexpectedCharacter {
                                ch: c,
                                line: st.line,
                                column: st.col,
                            },
                        )
                    }
                },
            },
            LexState::InIdentifier => {
                if is_ident_char(c) {
                    spec_lex(
                        s,
                        i + 1,
                        LexSt {
                            state: LexState::InIdentifier,
                            start: st.start,
                            start_line: st.start_line,
                            start_col: st.start_col,
                            line: adv.0,
                            col: adv.1,
                            toks: st.toks,
                        },
                    )
                } else {
                    let text = s.subrange(st.start, i);
                    spec_lex(
                        s,
                        i,
                        LexSt {
                            state: LexState::Searching,
                            start: st.start,
                            start_line: st.start_line,
                            start_col: st.start_col,
                            line: st.line,
                            col: st.col,
                            toks: st.toks.push(
                                TokenModel {
                                    kind: keyword_kind(text),
                                    text,
                                    line: st.start_line,
                                    column: st.start_col,
                                },
                            ),
                        },
                    )
                }
            },
            LexState::InNumber => {
                if is_digit_char(c) {
                    spec_lex(
                        s,
                        i + 1,
                        LexSt {
                            state: LexState::InNumber,
                            start: st.start,
                            start_line: st.start_line,
                            start_col: st.start_col,
                            line: adv.0,
                            col: adv.1,
                            toks: st.toks,
                        },
                    )
                } else {
                    let text = s.subrange(st.start, i);
                    spec_lex(
                        s,
                        i,
                        LexSt {
                            state: LexState::Searching,
                            start: st.start,
                            start_line: st.start_line,
                            start_col: st.start_col,
                            line: st.line,
                            col: st.col,
                            toks: st.toks.push(
                                TokenModel {
                                    kind: TokenKind::Number,
                                    text,
                                    line: st.start_line,
                                    column: st.start_col,
                                },
                            ),
                        },
                    )
                }
            },
            LexState::InString => {
                if c == '"' {
                    let text = s.subrange(st.start, i);
                    spec_lex(
                        s,
                        i + 1,
                        LexSt {
                            state: LexState::Searching,
                            start: st.start,
                            start_line: st.start_line,
                            start_col: st.start_col,
                            line: adv.0,
                            col: adv.1,
                            toks: st.toks.push(
                                TokenModel {
                                    kind: TokenKind::StringLit,
                                    text,
                                    line: st.start_line,
                                    column: st.start_col,
                                },
                            ),
                        },
                    )
                } else {
                    spec_lex(
                        s,
                        i + 1,
                        LexSt {
                            state: LexState::InString,
                            start: st.start,
                            start_line: st.start_line,
                            start_col: st.start_col,
                            line: adv.0,
                            col: adv.1,
                            toks: st.toks,
                        },
                    )
                }
            },
        }
    }
}

/// The complete scan of a source text: its token sequence, ending in the one
/// EOF token, or the first failure.
pub open spec fn spec_tokenize(s: Seq<char>) -> Result<Seq<TokenModel>, LexErrorModel> {
    spec_lex(s, 0, init_lex_st())
}

/// The token kind an identifier's text yields: a keyword kind for the four
/// keywords, `Identifier` for everything else.
pub fn get_keyword_token_type(keyword: &str) -> (r: TokenKind)
    ensures
        r == keyword_kind(keyword@),
{
    let n = keyword.unicode_len();
    if n == 3 && keyword.get_char(0) == 'v' && keyword.get_char(1) == 'a' && keyword.get_char(2)
        == 'r' {
        proof {
            assert(keyword@ =~= seq!['v', 'a', 'r']);
        }
        TokenKind::Var
    } else if n == 2 && keyword.get_char(0) == 'i' && keyword.get_char(1) == 'f' {
        proof {
            assert(keyword@ =~= seq!['i', 'f']);
        }
        TokenKind::If
    } else if n == 4 && keyword.get_char(0) == 'e' && keyword.get_char(1) == 'l' && keyword.get_char(
        2,
    ) == 's' && keyword.get_char(3) == 'e' {
        proof {
            assert(keyword@ =~= seq!['e', 'l', 's', 'e']);
        }
        TokenKind::Else
    } else if n == 5 && keyword.get_char(0) == 'w' && keyword.get_char(1) == 'h' && keyword.get_char(
        2,
    ) == 'i' && keyword.get_char(3) == 'l' && keyword.get_char(4) == 'e' {
        proof {
            assert(keyword@ =~= seq!['w', 'h', 'i', 'l', 'e']);
        }
        TokenKind::While
    } else {
        proof {
            assert(keyword@ != seq!['v', 'a', 'r']) by {
                if keyword@ == seq!['v', 'a', 'r'] {
                    assert(keyword@.len() == 3);
                    assert(keyword@[0] == 'v' && keyword@[1] == 'a' && keyword@[2] == 'r');
                }
            }
            assert(keyword@ != seq!['i', 'f']) by {
                if keyword@ == seq!['i', 'f'] {
                    assert(keyword@.len() == 2);
                    assert(keyword@[0] == 'i' && keyword@[1] == 'f');
                }
            }
            assert(keyword@ != seq!['e', 'l', 's', 'e']) by {
                if keyword@ == seq!['e', 'l', 's', 'e'] {
                    assert(keyword@.len() == 4);
                    assert(keyword@[0] == 'e' && keyword@[1] == 'l' && keyword@[2] == 's'
                        && keyword@[3] == 'e');
                }
            }
            assert(keyword@ != seq!['w', 'h', 'i', 'l', 'e']) by {
                if keyword@ == seq!['w', 'h', 'i', 'l', 'e'] {
                    assert(keyword@.len() == 5);
                    assert(keyword@[0] == 'w' && keyword@[1] == 'h' && keyword@[2] == 'i'
                        && keyword@[3] == 'l' && keyword@[4] == 'e');
                }
            }
        }
        TokenKind::Identifier
    }
}

/// The 1-based (line, column) of character index `index` in `s`: the
/// position reached after consuming the characters before `index`.
pub open spec fn spec_loc(s: Seq<char>, index: int) -> (int, int)
    decreases index,
{
    if index <= 0 {
        (1, 1)
    } else {
        let prev = spec_loc(s, index - 1);
        if index - 1 < s.len() {
            spec_advance(prev.0, prev.1, s[index - 1])
        } else {
            prev
        }
    }
}

/// Converts a character offset into the (line, column) it falls on, counting
/// lines and columns from 1. Offsets beyond the end of the input give the
/// position just past the last character.
pub fn get_loc_from_index(index: usize, input: &str) -> (r: (usize, usize))
    requires
        input@.len() < usize::MAX,
    ensures
        (r.0 as int, r.1 as int) == spec_loc(input@, index as int),
{
    let n = input.unicode_len();
    let mut line: usize = 1;
    let mut column: usize = 1;
    let mut i: usize = 0;
    while i < index && i < n
        invariant
            input@.len() < usize::MAX,
            n == input@.len(),
            i <= n,
            i <= index,
            line as int <= i + 1,
            column as int <= i + 1,
            (line as int, column as int) == spec_loc(input@, i as int),
        decreases index - i,
    {
        let c = input.get_char(i);
        if c == '\n' {
            line = line + 1;
            column = 1;
        } else {
            column = column + 1;
        }
        i = i + 1;
    }
    proof {
        lemma_spec_loc_stable(input@, i as int, index as int);
    }
    (line, column)
}

/// Past the end of the input the position no longer moves.
proof fn lemma_spec_loc_stable(s: Seq<char>, i: int, j: int)
    requires
        0 <= i <= j,
        s.len() <= i || j <= i,
    ensures
        spec_loc(s, j) == spec_loc(s, i),
    decreases j - i,
{
    if i < j {
        lemma_spec_loc_stable(s, i, j - 1);
    }
}

/// Pushing one token onto a mapped token sequence maps the pushed token too.
proof fn lemma_tokens_model_push(toks: Seq<Token>, t: Token)
    ensures
        tokens_model(toks.push(t)) == tokens_model(toks).push(t@),
{
    assert(tokens_model(toks.push(t)) =~= tokens_model(toks).push(t@));
}

/// Scans a source text into its token sequence, or reports the first
/// lexical failure. Exactly one EOF token ends every successful scan, at the
/// final scan position. The result is precisely [`spec_tokenize`] of the
/// input.
pub fn tokenize(input: &str) -> (r: Result<Vec<Token>, LexError>)
    requires
        input@.len() < usize::MAX,
    ensures
        match r {
            Ok(toks) => spec_tokenize(input@) == Ok::<Seq<TokenModel>, LexErrorModel>(
                tokens_model(toks@),
            ),
            Err(e) => spec_tokenize(input@) == Err::<Seq<TokenModel>, LexErrorModel>(e@),
        },
{
    let n = input.unicode_len();
    let mut state = LexState::Searching;
    let mut start: usize = 0;
    let mut start_line: usize = 1;
    let mut start_col: usize = 1;
    let mut line: usize = 1;
    let mut col: usize = 1;
    let mut toks: Vec<Token> = Vec::new();
    let mut i: usize = 0;

    proof {
        assert(tokens_model(toks@) =~= Seq::<TokenModel>::empty());
    }

    while i < n
        invariant
            input@.len() < usize::MAX,
            n == input@.len(),
            i <= n,
            !(state is Searching) ==> start <= i,
            line as int <= i + 1,
            col as int <= i + 1,
            spec_lex(input@, 0, init_lex_st()) == spec_lex(
                input@,
                i as int,
                LexSt {
                    state,
                    start: start as int,
                    start_line: start_line as int,
                    start_col: start_col as int,
                    line: line as int,
                    col: col as int,
                    toks: tokens_model(toks@),
                },
            ),
        decreases 2 * (n - i) + lex_rank(state),
    {
        let ghost st = LexSt {
            state,
            start: start as int,
            start_line: start_line as int,
            start_col: start_col as int,
            line: line as int,
            col: col as int,
            toks: tokens_model(toks@),
        };
        let c = input.get_char(i);
        match state {
            LexState::Searching => {
                match punct_token_kind(c) {
                    Some(k) => {
                        let mut text = String::new();
                        push_char(&mut text, c);
                        let t = Token { kind: k, text, line, column: col };
                        proof {
                            assert(t@.text =~= seq![c]);
                            lemma_tokens_model_push(toks@, t);
                        }
                        toks.push(t);
                    },
                    None => {
                        if c == '"' {
                            state = LexState::InString;
                            start = i + 1;
                            start_line = line;
                            start_col = col;
                        } else if is_digit(c) {
                            state = LexState::InNumber;
                            start = i;
                            start_line = line;
                            start_col = col;
                        } else if is_ident(c) {
                            state = LexState::InIdentifier;
                            start = i;
                            start_line = line;
                            start_col = col;
                        } else if c == ' ' || c == '\n' || c == '\t' {
                            // whitespace: skipped, not emitted
                        } else {
                            let e = LexError::UnexpectedCharacter { ch: c, line, column: col };
                            return Err(e);
                        }
                    },
                }
                if c == '\n' {
                    line = line + 1;
                    col = 1;
                } else {
                    col = col + 1;
                }
                i = i + 1;
            },
            LexState::InIdentifier => {
                if is_ident(c) {
                    if c == '\n' {
                        line = line + 1;
                        col = 1;
                    } else {
                        col = col + 1;
                    }
                    i = i + 1;
                } else {
                    let text_slice = input.substring_char(start, i);
                    let kind = get_keyword_token_type(text_slice);
                    let t = Token {
                        kind,
                        text: text_slice.to_owned(),
                        line: start_line,
                        column: start_col,
                    };
                    proof {
                        lemma_tokens_model_push(toks@, t);
                    }
                    toks.push(t);
                    state = LexState::Searching;
                }
            },
            LexState::InNumber => {
                if is_digit(c) {
                    if c == '\n' {
                        line = line + 1;
                        col = 1;
                    } else {
                        col = col + 1;
                    }
                    i = i + 1;
                } else {
                    let text_slice = input.substring_char(start, i);
                    let t = Token {
                        kind: TokenKind::Number,
                        text: text_slice.to_owned(),
                        line: start_line,
                        column: start_col,
                    };
                    proof {
                        lemma_tokens_model_push(toks@, t);
                    }
                    toks.push(t);
                    state = LexState::Searching;
                }
            },
            LexState::InString => {
                if c == '"' {
                    let text_slice = input.substring_char(start, i);
                    let t = Token {
                        kind: TokenKind::StringLit,
                        text: text_slice.to_owned(),
                        line: start_line,
                        column: start_col,
                    };
                    proof {
                        lemma_tokens_model_push(toks@, t);
                    }
                    toks.push(t);
                    state = LexState::Searching;
                }
                if c == '\n' {
                    line = line + 1;
                    col = 1;
                } else {
                    col = col + 1;
                }
                i = i + 1;
            },
        }
    }

    match state {
        LexState::Searching => {
            let t = Token { kind: TokenKind::Eof, text: String::new(), line, column: col };
            proof {
                lemma_tokens_model_push(toks@, t);
            }
            toks.push(t);
            Ok(toks)
        },
        LexState::InIdentifier => {
            let text_slice = input.substring_char(start, n);
            let kind = get_keyword_token_type(text_slice);
            let t = Token {
                kind,
                text: text_slice.to_owned(),
                line: start_line,
                column: start_col,
            };
            proof {
                lemma_tokens_model_push(toks@, t);
            }
            toks.push(t);
            let eof = Token { kind: TokenKind::Eof, text: String::new(), line, column: col };
            proof {
                lemma_tokens_model_push(toks@, eof);
            }
            toks.push(eof);
            Ok(toks)
        },
        LexState::InNumber => {
            let text_slice = input.substring_char(start, n);
            let t = Token {
                kind: TokenKind::Number,
                text: text_slice.to_owned(),
                line: start_line,
                column: start_col,
            };
            proof {
                lemma_tokens_model_push(toks@, t);
            }
            toks.push(t);
            let eof = Token { kind: TokenKind::Eof, text: String::new(), line, column: col };
            proof {
                lemma_tokens_model_push(toks@, eof);
            }
            toks.push(eof);
            Ok(toks)
        },
        LexState::InString => Err(
            LexError::UnterminatedString { line: start_line, column: start_col },
        ),
    }
}

/// The kind of a single-character punctuation or operator token.
fn punct_token_kind(c: char) -> (r: Option<TokenKind>)
    ensures
        r == punct_kind(c),
{
    if c == '(' {
        Some(TokenKind::LParen)
    } else if c == ')' {
        Some(TokenKind::RParen)
    } else if c == '{' {
        Some(TokenKind::LBrace)
    } else if c == '}' {
        Some(TokenKind::RBrace)
    } else if c == ';' {
        Some(TokenKind::Semicolon)
    } else if c == '+' {
        Some(TokenKind::Plus)
    } else if c == '-' {
        Some(TokenKind::Minus)
    } else if c == '*' {
        Some(TokenKind::Multiply)
    } else if c == '/' {
        Some(TokenKind::Divide)
    } else if c == '>' {
        Some(TokenKind::Greater)
    } else if c == '<' {
        Some(TokenKind::Less)
    } else if c == '=' {
        Some(TokenKind::Equal)
    } else {
        None
    }
}

/// Whether `c` continues a number run.
fn is_digit(c: char) -> (r: bool)
    ensures
        r == is_digit_char(c),
{
    '0' <= c && c <= '9'
}

/// Whether `c` starts or continues an identifier run.
fn is_ident(c: char) -> (r: bool)
    ensures
        r == is_ident_char(c),
{
    ('a' <= c && c <= 'z') || ('A' <= c && c <= 'Z') || c == '_'
}



/// A string literal that is never closed fails the whole scan: from inside
/// a string run, when no closing quote appears in the rest of the input,
/// the scan returns `UnterminatedString` at the opening quote's position —
/// never a token list.
pub proof fn lemma_unterminated_string(s: Seq<char>, i: int, st: LexSt)
    requires
        st.state is InString,
        forall|k: int| i <= k < s.len() ==> s[k] != '"',
    ensures
        spec_lex(s, i, st) == Err::<Seq<TokenModel>, LexErrorModel>(
            LexErrorModel::UnterminatedString { line: st.start_line, column: st.start_col },
        ),
    decreases s.len() - i,
{
    if i < s.len() {
        let adv = spec_advance(st.line, st.col, s[i]);
        lemma_unterminated_string(
            s,
            i + 1,
            LexSt {
                state: LexState::InString,
                start: st.start,
                start_line: st.start_line,
                start_col: st.start_col,
                line: adv.0,
                col: adv.1,
                toks: st.toks,
            },
        );
    }
}

/// Every successful scan yields a well-formed token sequence: non-empty,
/// ending in the one EOF token, with no EOF token anywhere earlier.
pub proof fn lemma_spec_lex_wf(s: Seq<char>, i: int, st: LexSt)
    requires
        spec_lex(s, i, st) is Ok,
        forall|k: int| 0 <= k < st.toks.len() ==> st.toks[k].kind != TokenKind::Eof,
    ensures
        wf_tokens(spec_lex(s, i, st)->Ok_0),
    decreases s.len() - i, lex_rank(st.state),
{
    if i >= s.len() {
    } else {
        let c = s[i];
        let adv = spec_advance(st.line, st.col, c);
        match st.state {
            LexState::Searching => match punct_kind(c) {
                Some(k) => {
                    lemma_spec_lex_wf(
                        s,
                        i + 1,
                        LexSt {
                            state: LexState::Searching,
                            start: st.start,
                            start_line: st.start_line,
                            start_col: st.start_col,
                            line: adv.0,
                            col: adv.1,
                            toks: st.toks.push(
                                TokenModel { kind: k, text: seq![c], line: st.line, column: st.col },
                            ),
                        },
                    );
                },
                None => {
                    if c == '"' {
                        lemma_spec_lex_wf(
                            s,
                            i + 1,
                            LexSt {
                                state: LexState::InString,
                                start: i + 1,
                                start_line: st.line,
                                start_col: st.col,
                                line: adv.0,
                                col: adv.1,
                                toks: st.toks,
                            },
                        );
                    } else if is_digit_char(c) {
                        lemma_spec_lex_wf(
                            s,
                            i + 1,
                            LexSt {
                                state: LexState::InNumber,
                                start: i,
                                start_line: st.line,
                                start_col: st.col,
                                line: adv.0,
                                col: adv.1,
                                toks: st.toks,
                            },
                        );
                    } else if is_ident_char(c) {
                        lemma_spec_lex_wf(
                            s,
                            i + 1,
                            LexSt {
                                state: LexState::InIdentifier,
                                start: i,
                                start_line: st.line,
                                start_col: st.col,
                                line: adv.0,
                                col: adv.1,
                                toks: st.toks,
                            },
                        );
                    } else if is_space_char(c) {
                        lemma_spec_lex_wf(
                            s,
                            i + 1,
                            LexSt {
                                state: LexState::Searching,
                                start: st.start,
                                start_line: st.start_line,
                                start_col: st.start_col,
                                line: adv.0,
                                col: adv.1,
                                toks: st.toks,
                            },
                        );
                    }
                },
            },
            LexState::InIdentifier => {
                if is_ident_char(c) {
                    lemma_spec_lex_wf(
                        s,
                        i + 1,
                        LexSt {
                            state: LexState::InIdentifier,
                            start: st.start,
                            start_line: st.start_line,
                            start_col: st.start_col,
                            line: adv.0,
                            col: adv.1,
                            toks: st.toks,
                        },
                    );
                } else {
                    let text = s.subrange(st.start, i);
                    lemma_spec_lex_wf(
                        s,
                        i,
                        LexSt {
                            state: LexState::Searching,
                            start: st.start,
                            start_line: st.start_line,
                            start_col: st.start_col,
                            line: st.line,
                            col: st.col,
                            toks: st.toks.push(
                                TokenModel {
                                    kind: keyword_kind(text),
                                    text,
                                    line: st.start_line,
                                    column: st.start_col,
                                },
                            ),
                        },
                    );
                }
            },
            LexState::InNumber => {
                if is_digit_char(c) {
                    lemma_spec_lex_wf(
                        s,
                        i + 1,
                        LexSt {
                            state: LexState::InNumber,
                            start: st.start,
                            start_line: st.start_line,
                            start_col: st.start_col,
                            line: adv.0,
                            col: adv.1,
                            toks: st.toks,
                        },
                    );
                } else {
                    let text = s.subrange(st.start, i);
                    lemma_spec_lex_wf(
                        s,
                        i,
                        LexSt {
                            state: LexState::Searching,
                            start: st.start,
                            start_line: st.start_line,
                            start_col: st.start_col,
                            line: st.line,
                            col: st.col,
                            toks: st.toks.push(
                                TokenModel {
                                    kind: TokenKind::Number,
                                    text,
                                    line: st.start_line,
                                    column: st.start_col,
                                },
                            ),
                        },
                    );
                }
            },
            LexState::InString => {
                if c == '"' {
                    let text = s.subrange(st.start, i);
                    lemma_spec_lex_wf(
                        s,
                        i + 1,
                        LexSt {
                            state: LexState::Searching,
                            start: st.start,
                            start_line: st.start_line,
                            start_col: st.start_col,
                            line: adv.0,
                            col: adv.1,
                            toks: st.toks.push(
                                TokenModel {
                                    kind: TokenKind::StringLit,
                                    text,
                                    line: st.start_line,
                                    column: st.start_col,
                                },
                            ),
                        },
                    );
                } else {
                    lemma_spec_lex_wf(
                        s,
                        i + 1,
                        LexSt {
                            state: LexState::InString,
                            start: st.start,
                            start_line: st.start_line,
                            start_col: st.start_col,
                            line: adv.0,
                            col: adv.1,
                            toks: st.toks,
                        },
                    );
                }
            },
        }
    }
}

/// A successful scan of any source text is a well-formed token sequence.
pub proof fn lemma_tokenize_wf(s: Seq<char>)
    requires
        spec_tokenize(s) is Ok,
    ensures
        wf_tokens(spec_tokenize(s)->Ok_0),
{
    lemma_spec_lex_wf(s, 0, init_lex_st());
}

} // verus!
