//! The AST serializer: a canonical, JSON-compatible text form of a tree.
//!
//! Every node is emitted as `{"type":<code>,"data":{...}}` with the fixed
//! numeric node codes, the payload field names of the data model (including
//! the exact spellings `elseBlock` and `leftToken`), and every embedded
//! token as `{"type":<code>,"value":"...","line":...,"column":...}`.
//! Serialization is a total function of the tree: [`serialize`] is proved
//! to return exactly [`spec_serialize`] of the node's model, so equal trees
//! serialize to identical text on every run.

use vstd::prelude::*;
use vstd::string::StrSliceExecFns;
use vstd::string::StringExecFns;

use crate::ast::AstNode;
use crate::ast::NodeKind;
use crate::ast::SpecNode;
use crate::ast::lemma_view_nodes;
use crate::ast::spec_node_code;
use crate::ast::view_nodes;
use crate::token::Token;
use crate::token::TokenModel;
use crate::token::push_char;
use crate::token::spec_kind_code;

verus! {

/// The character of a single decimal digit.
pub open spec fn digit_char(d: int) -> char {
    if d == 0 {
        '0'
    } else if d == 1 {
        '1'
    } else if d == 2 {
        '2'
    } else if d == 3 {
        '3'
    } else if d == 4 {
        '4'
    } else if d == 5 {
        '5'
    } else if d == 6 {
        '6'
    } else if d == 7 {
        '7'
    } else if d == 8 {
        '8'
    } else {
        '9'
    }
}

/// The decimal digits of a non-negative integer, most significant first.
pub open spec fn dec_digits(n: int) -> Seq<char>
    decreases n,
{
    if n <= 9 {
        seq![digit_char(n)]
    } else {
        dec_digits(n / 10).push(digit_char(n % 10))
    }
}

/// The character of a single hexadecimal digit, lower case.
pub open spec fn hex_digit(d: int) -> char {
    if d <= 9 {
        digit_char(d)
    } else if d == 10 {
        'a'
    } else if d == 11 {
        'b'
    } else if d == 12 {
        'c'
    } else if d == 13 {
        'd'
    } else if d == 14 {
        'e'
    } else {
        'f'
    }
}

/// The JSON escape of one character: quote and backslash are
/// backslash-escaped, the control characters with short forms use them
/// (`\n`, `\r`, `\t`, `\b`, `\f`), any other control character uses a
/// `\u00XX` escape, and everything else stands for itself.
pub open spec fn esc_char(c: char) -> Seq<char> {
    if c == '"' {
        seq!['\\', '"']
    } else if c == '\\' {
        seq!['\\', '\\']
    } else if c == '\n' {
        seq!['\\', 'n']
    } else if c == '\r' {
        seq!['\\', 'r']
    } else if c == '\t' {
        seq!['\\', 't']
    } else if c == '\u{8}' {
        seq!['\\', 'b']
    } else if c == '\u{c}' {
        seq!['\\', 'f']
    } else if (c as u32) < 32 {
        seq!['\\', 'u', '0', '0', hex_digit((c as u32) as int / 16), hex_digit(
            (c as u32) as int % 16,
        )]
    } else {
        seq![c]
    }
}

/// The JSON escape of the characters of `s` from index `i` on.
pub open spec fn esc_text(s: Seq<char>, i: int) -> Seq<char>
    decreases s.len() - i,
{
    if i < 0 || i >= s.len() {
        Seq::empty()
    } else {
        esc_char(s[i]) + esc_text(s, i + 1)
    }
}

/// The canonical text of one token: its kind code, escaped text, and
/// position.
pub open spec fn spec_serialize_token(t: TokenModel) -> Seq<char> {
    "{\"type\":"@ + dec_digits(spec_kind_code(t.kind) as int) + ",\"value\":\""@ + esc_text(
        t.text,
        0,
    ) + "\",\"line\":"@ + dec_digits(t.line) + ",\"column\":"@ + dec_digits(t.column) + "}"@
}

/// The canonical text of one AST node: `{"type":<code>,"data":{...}}` with
/// the payload fields of its kind.
pub open spec fn spec_serialize(n: SpecNode) -> Seq<char>
    decreases n, 0int,
{
    match n {
        SpecNode::Program { block } => "{\"type\":"@ + dec_digits(
            spec_node_code(NodeKind::Program) as int,
        ) + ",\"data\":{\"block\":"@ + spec_serialize(*block) + "}}"@,
        SpecNode::StatementBlock { statements } => "{\"type\":"@ + dec_digits(
            spec_node_code(NodeKind::StatementBlock) as int,
        ) + ",\"data\":{\"statements\":["@ + spec_serialize_stmts(statements, 0) + "]}}"@,
        SpecNode::VariableStatement { identifier } => "{\"type\":"@ + dec_digits(
            spec_node_code(NodeKind::VariableStatement) as int,
        ) + ",\"data\":{\"identifier\":\""@ + esc_text(identifier, 0) + "\"}}"@,
        SpecNode::IfStatement { condition, block, else_block } => "{\"type\":"@ + dec_digits(
            spec_node_code(NodeKind::IfStatement) as int,
        ) + ",\"data\":{\"condition\":"@ + spec_serialize(*condition) + ",\"block\":"@
            + spec_serialize(*block) + ",\"elseBlock\":"@ + (match else_block {
            Some(e) => spec_serialize(*e),
            None => "null"@,
        }) + "}}"@,
        SpecNode::WhileStatement { condition, block } => "{\"type\":"@ + dec_digits(
            spec_node_code(NodeKind::WhileStatement) as int,
        ) + ",\"data\":{\"condition\":"@ + spec_serialize(*condition) + ",\"block\":"@
            + spec_serialize(*block) + "}}"@,
        SpecNode::AssignmentStatement { identifier, value } => "{\"type\":"@ + dec_digits(
            spec_node_code(NodeKind::AssignmentStatement) as int,
        ) + ",\"data\":{\"identifier\":\""@ + esc_text(identifier, 0) + "\",\"value\":"@
            + spec_serialize(*value) + "}}"@,
        SpecNode::Condition { left, operator, right } => "{\"type\":"@ + dec_digits(
            spec_node_code(NodeKind::Condition) as int,
        ) + ",\"data\":{\"left\":"@ + spec_serialize(*left) + ",\"operator\":\""@ + esc_text(
            operator,
            0,
        ) + "\",\"right\":"@ + spec_serialize(*right) + "}}"@,
        SpecNode::Expression { left_token, operator, right } => "{\"type\":"@ + dec_digits(
            spec_node_code(NodeKind::Expression) as int,
        ) + ",\"data\":{\"leftToken\":"@ + spec_serialize_token(left_token) + ",\"operator\":"@
            + (match operator {
            Some(o) => "\""@ + esc_text(o, 0) + "\""@,
            None => "null"@,
        }) + ",\"right\":"@ + (match right {
            Some(r) => spec_serialize(*r),
            None => "null"@,
        }) + "}}"@,
    }
}

/// The canonical text of the statements of a block from index `i` on,
/// comma-separated.
pub open spec fn spec_serialize_stmts(ss: Seq<SpecNode>, i: int) -> Seq<char>
    decreases ss, ss.len() - i,
{
    if i < 0 || i >= ss.len() {
        Seq::empty()
    } else {
        (if i > 0 {
            seq![',']
        } else {
            Seq::empty()
        }) + spec_serialize(ss[i]) + spec_serialize_stmts(ss, i + 1)
    }
}

/// The character of a single decimal digit.
fn digit_character(d: usize) -> (r: char)
    requires
        d <= 9,
    ensures
        r == digit_char(d as int),
{
    match d {
        0 => '0',
        1 => '1',
        2 => '2',
        3 => '3',
        4 => '4',
        5 => '5',
        6 => '6',
        7 => '7',
        8 => '8',
        _ => '9',
    }
}

/// The character of a single hexadecimal digit, lower case.
fn hex_character(d: u32) -> (r: char)
    requires
        d <= 15,
    ensures
        r == hex_digit(d as int),
{
    match d {
        0 => '0',
        1 => '1',
        2 => '2',
        3 => '3',
        4 => '4',
        5 => '5',
        6 => '6',
        7 => '7',
        8 => '8',
        9 => '9',
        10 => 'a',
        11 => 'b',
        12 => 'c',
        13 => 'd',
        14 => 'e',
        _ => 'f',
    }
}

/// Appends the decimal digits of `n` to `out`.
fn append_usize(out: &mut String, n: usize)
    ensures
        final(out)@ == old(out)@ + dec_digits(n as int),
    decreases n,
{
    if n <= 9 {
        push_char(out, digit_character(n));
        proof {
            assert(out@ =~= old(out)@ + dec_digits(n as int));
        }
    } else {
        append_usize(out, n / 10);
        push_char(out, digit_character(n % 10));
        proof {
            assert(out@ =~= old(out)@ + dec_digits(n as int));
        }
    }
}

/// Appends the JSON escape of `text` to `out`.
fn append_escaped(out: &mut String, text: &str)
    ensures
        final(out)@ == old(out)@ + esc_text(text@, 0),
{
    let n = text.unicode_len();
    let mut i: usize = 0;
    while i < n
        invariant
            n == text@.len(),
            i <= n,
            out@ + esc_text(text@, i as int) == old(out)@ + esc_text(text@, 0),
        decreases n - i,
    {
        let ghost prev = out@;
        let c = text.get_char(i);
        if c == '"' {
            push_char(out, '\\');
            push_char(out, '"');
        } else if c == '\\' {
            push_char(out, '\\');
            push_char(out, '\\');
        } else if c == '\n' {
            push_char(out, '\\');
            push_char(out, 'n');
        } else if c == '\r' {
            push_char(out, '\\');
            push_char(out, 'r');
        } else if c == '\t' {
            push_char(out, '\\');
            push_char(out, 't');
        } else if c == '\u{8}' {
            push_char(out, '\\');
            push_char(out, 'b');
        } else if c == '\u{c}' {
            push_char(out, '\\');
            push_char(out, 'f');
        } else {
            let code = c as u32;
            if code < 32 {
                push_char(out, '\\');
                push_char(out, 'u');
                push_char(out, '0');
                push_char(out, '0');
                push_char(out, hex_character(code / 16));
                push_char(out, hex_character(code % 16));
            } else {
                push_char(out, c);
            }
        }
        proof {
            assert(out@ =~= prev + esc_char(text@[i as int]));
            assert(out@ + esc_text(text@, i + 1) =~= prev + esc_text(text@, i as int));
        }
        i = i + 1;
    }
    proof {
        assert(out@ =~= old(out)@ + esc_text(text@, 0));
    }
}

/// Appends the canonical text of one token to `out`.
fn append_token(out: &mut String, t: &Token)
    ensures
        final(out)@ == old(out)@ + spec_serialize_token(t@),
{
    out.append("{\"type\":");
    append_usize(out, t.kind.code() as usize);
    out.append(",\"value\":\"");
    append_escaped(out, t.text.as_str());
    out.append("\",\"line\":");
    append_usize(out, t.line);
    out.append(",\"column\":");
    append_usize(out, t.column);
    out.append("}");
    proof {
        assert(out@ =~= old(out)@ + spec_serialize_token(t@));
    }
}

/// Appends the canonical text of one node to `out`.
fn serialize_into(out: &mut String, node: &AstNode)
    ensures
        final(out)@ == old(out)@ + spec_serialize(node@),
    decreases node, 1int,
{
    match node {
        AstNode::Program { .. } => serialize_simple(out, node),
        AstNode::StatementBlock { .. } => serialize_simple(out, node),
        AstNode::VariableStatement { .. } => serialize_simple(out, node),
        AstNode::IfStatement { .. } => serialize_compound(out, node),
        AstNode::WhileStatement { .. } => serialize_compound(out, node),
        AstNode::AssignmentStatement { .. } => serialize_compound(out, node),
        AstNode::Condition { .. } => serialize_operator_node(out, node),
        AstNode::Expression { .. } => serialize_operator_node(out, node),
    }
}

/// Appends the canonical text of a program, statement block, or variable
/// statement node.
#[verifier::rlimit(100)]
#[verifier::loop_isolation(false)]
fn serialize_simple(out: &mut String, node: &AstNode)
    requires
        (*node) is Program || (*node) is StatementBlock || (*node) is VariableStatement,
    ensures
        final(out)@ == old(out)@ + spec_serialize(node@),
    decreases node, 0int,
{
    match node {
        AstNode::Program { block } => {
            out.append("{\"type\":");
            append_usize(out, NodeKind::Program.code() as usize);
            out.append(",\"data\":{\"block\":");
            serialize_into(out, block);
            out.append("}}");
            proof {
                assert(out@ =~= old(out)@ + spec_serialize(node@));
            }
        },
        AstNode::StatementBlock { statements } => {
            out.append("{\"type\":");
            append_usize(out, NodeKind::StatementBlock.code() as usize);
            out.append(",\"data\":{\"statements\":[");
            let ghost ss = view_nodes(*statements, 0);
            let ghost mid = out@;
            proof {
                lemma_view_nodes(*statements, 0);
            }
            let n = statements.len();
            let mut k: usize = 0;
            while k < n
                invariant
                    k <= n,
                    out@ + spec_serialize_stmts(ss, k as int) == mid + spec_serialize_stmts(ss, 0),
                decreases n - k,
            {
                let ghost prev = out@;
                if k > 0 {
                    push_char(out, ',');
                }
                serialize_into(out, &statements[k]);
                proof {
                    assert(statements@[k as int]@ == ss[k as int]);
                    assert(out@ + spec_serialize_stmts(ss, k + 1) =~= prev + spec_serialize_stmts(
                        ss,
                        k as int,
                    ));
                }
                k = k + 1;
            }
            out.append("]}}");
            proof {
                assert(spec_serialize_stmts(ss, n as int) =~= Seq::<char>::empty());
                assert(out@ =~= old(out)@ + spec_serialize(node@));
            }
        },
        AstNode::VariableStatement { identifier } => {
            out.append("{\"type\":");
            append_usize(out, NodeKind::VariableStatement.code() as usize);
            out.append(",\"data\":{\"identifier\":\"");
            append_escaped(out, identifier.as_str());
            out.append("\"}}");
            proof {
                assert(out@ =~= old(out)@ + spec_serialize(node@));
            }
        },
        _ => vstd::pervasive::unreached(),
    }
}

/// Appends the canonical text of an if, while, or assignment statement
/// node.
#[verifier::rlimit(100)]
fn serialize_compound(out: &mut String, node: &AstNode)
    requires
        (*node) is IfStatement || (*node) is WhileStatement || (*node) is AssignmentStatement,
    ensures
        final(out)@ == old(out)@ + spec_serialize(node@),
    decreases node, 0int,
{
    match node {
        AstNode::IfStatement { condition, block, else_block } => {
            out.append("{\"type\":");
            append_usize(out, NodeKind::IfStatement.code() as usize);
            out.append(",\"data\":{\"condition\":");
            serialize_into(out, condition);
            out.append(",\"block\":");
            serialize_into(out, block);
            out.append(",\"elseBlock\":");
            match else_block {
                Some(e) => serialize_into(out, e),
                None => out.append("null"),
            }
            out.append("}}");
            proof {
                assert(out@ =~= old(out)@ + spec_serialize(node@));
            }
        },
        AstNode::WhileStatement { condition, block } => {
            out.append("{\"type\":");
            append_usize(out, NodeKind::WhileStatement.code() as usize);
            out.append(",\"data\":{\"condition\":");
            serialize_into(out, condition);
            out.append(",\"block\":");
            serialize_into(out, block);
            out.append("}}");
            proof {
                assert(out@ =~= old(out)@ + spec_serialize(node@));
            }
        },
        AstNode::AssignmentStatement { identifier, value } => {
            out.append("{\"type\":");
            append_usize(out, NodeKind::AssignmentStatement.code() as usize);
            out.append(",\"data\":{\"identifier\":\"");
            append_escaped(out, identifier.as_str());
            out.append("\",\"value\":");
            serialize_into(out, value);
            out.append("}}");
            proof {
                assert(out@ =~= old(out)@ + spec_serialize(node@));
            }
        },
        _ => vstd::pervasive::unreached(),
    }
}

/// Appends the canonical text of a condition or expression node.
#[verifier::rlimit(100)]
fn serialize_operator_node(out: &mut String, node: &AstNode)
    requires
        (*node) is Condition || (*node) is Expression,
    ensures
        final(out)@ == old(out)@ + spec_serialize(node@),
    decreases node, 0int,
{
    match node {
        AstNode::Condition { left, operator, right } => {
            out.append("{\"type\":");
            append_usize(out, NodeKind::Condition.code() as usize);
            out.append(",\"data\":{\"left\":");
            serialize_into(out, left);
            out.append(",\"operator\":\"");
            append_escaped(out, operator.as_str());
            out.append("\",\"right\":");
            serialize_into(out, right);
            out.append("}}");
            proof {
                assert(out@ =~= old(out)@ + spec_serialize(node@));
            }
        },
        AstNode::Expression { left_token, operator, right } => {
            out.append("{\"type\":");
            append_usize(out, NodeKind::Expression.code() as usize);
            out.append(",\"data\":{\"leftToken\":");
            append_token(out, left_token);
            out.append(",\"operator\":");
            match operator {
                Some(o) => {
                    out.append("\"");
                    append_escaped(out, o.as_str());
                    out.append("\"");
                },
                None => out.append("null"),
            }
            out.append(",\"right\":");
            match right {
                Some(r) => serialize_into(out, r),
                None => out.append("null"),
            }
            out.append("}}");
            proof {
                assert(out@ =~= old(out)@ + spec_serialize(node@));
            }
        },
        _ => vstd::pervasive::unreached(),
    }
}

/// The canonical serialized text of a tree: exactly [`spec_serialize`] of
/// its model. A total transform: it never fails on any tree.
pub fn serialize(node: &AstNode) -> (r: String)
    ensures
        r@ == spec_serialize(node@),
{
    let mut out = String::new();
    serialize_into(&mut out, node);
    proof {
        assert(out@ =~= spec_serialize(node@));
    }
    out
}

} // verus!
