//! Serialization of the tree to a structured textual form (JSON), as a
//! pure function of the tree: equal trees serialize to equal text. Every
//! statement and expression variant is supported. String contents are
//! escaped for quote, backslash, newline, carriage return and tab; other
//! characters are passed through unchanged.

use vstd::prelude::*;
use crate::expression::binary_expression::BinaryExpr;
use crate::expression::value_expression::ValueExpression;
use crate::expression::{ExprM, Expression};
use crate::numeral::{dec_str_int, i32_to_string};
use crate::statement::{stmts_m, Statement, StmtM};
use crate::text::{push_char, str_to_chars};

verus! {

/// The escape of one string character.
pub open spec fn esc_char(c: char) -> Seq<char> {
    if c == '"' {
        seq!['\\', '"']
    } else if c == '\\' {
        seq!['\\', '\\']
    } else if c == '\n' {
        seq!['\\', 'n']
    } else if c == '\r' {
        seq!['\\', 'r']
    } else if c == '\t' {
        seq!['\\', 't']
    } else {
        seq![c]
    }
}

/// The escape of a whole string.
pub open spec fn esc(s: Seq<char>) -> Seq<char>
    decreases s.len(),
{
    if s.len() == 0 {
        Seq::empty()
    } else {
        esc_char(s[0]) + esc(s.drop_first())
    }
}

/// A JSON string literal: the escaped text between quotes.
pub open spec fn json_str(s: Seq<char>) -> Seq<char> {
    seq!['"'] + esc(s) + seq!['"']
}

/// The JSON form of an expression tree.
pub open spec fn json_expr(e: ExprM) -> Seq<char>
    decreases e,
{
    match e {
        ExprM::Int(n) => "{\"ValueExpression\":{\"IntValue\":{\"value\":"@ + dec_str_int(n)
            + "}}}"@,
        ExprM::Float(t) => "{\"ValueExpression\":{\"FloatValue\":{\"value\":"@ + t + "}}}"@,
        ExprM::Var(name) => "{\"VariableExpression\":{\"name\":"@ + json_str(name) + "}}"@,
        ExprM::Add(l, r) => "{\"BinaryExpression\":{\"AddOpr\":{\"lhs\":"@ + json_expr(*l)
            + ",\"rhs\":"@ + json_expr(*r) + "}}}"@,
        ExprM::Sub(l, r) => "{\"BinaryExpression\":{\"SubOpr\":{\"lhs\":"@ + json_expr(*l)
            + ",\"rhs\":"@ + json_expr(*r) + "}}}"@,
        ExprM::Mul(l, r) => "{\"BinaryExpression\":{\"MulOpr\":{\"lhs\":"@ + json_expr(*l)
            + ",\"rhs\":"@ + json_expr(*r) + "}}}"@,
        ExprM::Div(l, r) => "{\"BinaryExpression\":{\"DivOpr\":{\"lhs\":"@ + json_expr(*l)
            + ",\"rhs\":"@ + json_expr(*r) + "}}}"@,
    }
}

/// The JSON form of a statement.
pub open spec fn json_stmt(s: StmtM) -> Seq<char> {
    match s {
        StmtM::Expr(e) => "{\"Expression\":"@ + json_expr(e) + "}"@,
        StmtM::Assign { variable, value, mutable } => "{\"Assign\":{\"variable\":"@ + json_expr(
            variable,
        ) + ",\"value\":"@ + json_expr(value) + ",\"mutable\":"@ + (if mutable {
            "true"@
        } else {
            "false"@
        }) + "}}"@,
    }
}

/// The JSON forms of the statements after the first, each preceded by a
/// comma.
pub open spec fn json_stmts_rest(ss: Seq<StmtM>, i: int) -> Seq<char>
    decreases ss.len() - i,
{
    if i < 0 || i >= ss.len() {
        Seq::empty()
    } else {
        ","@ + json_stmt(ss[i]) + json_stmts_rest(ss, i + 1)
    }
}

/// The JSON form of a statement sequence: a JSON array.
pub open spec fn json_stmts(ss: Seq<StmtM>) -> Seq<char> {
    if ss.len() == 0 {
        "[]"@
    } else {
        "["@ + json_stmt(ss[0]) + json_stmts_rest(ss, 1) + "]"@
    }
}

/// Escaping one character at a time from the left builds the same escape.
proof fn lemma_esc_snoc(s: Seq<char>, c: char)
    ensures
        esc(s.push(c)) == esc(s) + esc_char(c),
    decreases s.len(),
{
    if s.len() == 0 {
        assert(s.push(c)[0] == c);
        assert(s.push(c).drop_first() =~= Seq::<char>::empty());
        assert(esc(Seq::<char>::empty()) =~= Seq::<char>::empty());
        assert(esc(s.push(c)) =~= esc_char(c) + esc(s.push(c).drop_first()));
        assert(esc_char(c) + Seq::<char>::empty() =~= esc_char(c));
        assert(Seq::<char>::empty() + esc_char(c) =~= esc_char(c));
    } else {
        assert(s.push(c)[0] == s[0]);
        assert(s.push(c).drop_first() =~= s.drop_first().push(c));
        lemma_esc_snoc(s.drop_first(), c);
        assert(esc_char(s[0]) + (esc(s.drop_first()) + esc_char(c)) =~= (esc_char(s[0]) + esc(
            s.drop_first(),
        )) + esc_char(c));
    }
}

/// The escaped, quoted form of a string.
fn json_string(s: &String) -> (r: String)
    ensures
        r@ == json_str(s@),
{
    let chars = str_to_chars(s.as_str());
    let n = chars.len();
    let mut out = String::new();
    push_char(&mut out, '"');
    let mut i: usize = 0;
    while i < n
        invariant
            n == chars@.len(),
            chars@ == s@,
            i <= n,
            out@ == seq!['"'] + esc(s@.subrange(0, i as int)),
        decreases n - i,
    {
        proof {
            lemma_esc_snoc(s@.subrange(0, i as int), s@[i as int]);
            assert(s@.subrange(0, i as int).push(s@[i as int]) =~= s@.subrange(0, i + 1));
        }
        let c = chars[i];
        if c == '"' {
            out.append("\\\"");
            proof {
                reveal_strlit("\\\"");
                assert("\\\""@ =~= esc_char(c));
            }
        } else if c == '\\' {
            out.append("\\\\");
            proof {
                reveal_strlit("\\\\");
                assert("\\\\"@ =~= esc_char(c));
            }
        } else if c == '\n' {
            out.append("\\n");
            proof {
                reveal_strlit("\\n");
                assert("\\n"@ =~= esc_char(c));
            }
        } else if c == '\r' {
            out.append("\\r");
            proof {
                reveal_strlit("\\r");
                assert("\\r"@ =~= esc_char(c));
            }
        } else if c == '\t' {
            out.append("\\t");
            proof {
                reveal_strlit("\\t");
                assert("\\t"@ =~= esc_char(c));
            }
        } else {
            push_char(&mut out, c);
            proof {
                assert(seq![c] =~= esc_char(c));
            }
        }
        proof {
            assert(out@ =~= seq!['"'] + esc(s@.subrange(0, i + 1)));
        }
        i = i + 1;
    }
    push_char(&mut out, '"');
    proof {
        assert(s@.subrange(0, n as int) =~= s@);
        assert(out@ =~= json_str(s@));
    }
    out
}

/// The JSON form of one expression tree.
pub fn serialize_expression(e: &Expression) -> (r: String)
    ensures
        r@ == json_expr(e@),
    decreases e,
{
    let mut out = String::new();
    match e {
        Expression::ValueExpression(v) => match v {
            ValueExpression::IntValue(iv) => {
                out.append("{\"ValueExpression\":{\"IntValue\":{\"value\":");
                let num = i32_to_string(iv.value);
                out.append(num.as_str());
                out.append("}}}");
            },
            ValueExpression::FloatValue(fv) => {
                out.append("{\"ValueExpression\":{\"FloatValue\":{\"value\":");
                out.append(fv.value.as_str());
                out.append("}}}");
            },
        },
        Expression::VariableExpression(v) => {
            out.append("{\"VariableExpression\":{\"name\":");
            let name = json_string(&v.name);
            out.append(name.as_str());
            out.append("}}");
        },
        Expression::BinaryExpression(b) => match b {
            BinaryExpr::AddOpr(o) => {
                out.append("{\"BinaryExpression\":{\"AddOpr\":{\"lhs\":");
                let l = serialize_expression(&o.lhs);
                out.append(l.as_str());
                out.append(",\"rhs\":");
                let r2 = serialize_expression(&o.rhs);
                out.append(r2.as_str());
                out.append("}}}");
            },
            BinaryExpr::SubOpr(o) => {
                out.append("{\"BinaryExpression\":{\"SubOpr\":{\"lhs\":");
                let l = serialize_expression(&o.lhs);
                out.append(l.as_str());
                out.append(",\"rhs\":");
                let r2 = serialize_expression(&o.rhs);
                out.append(r2.as_str());
                out.append("}}}");
            },
            BinaryExpr::MulOpr(o) => {
                out.append("{\"BinaryExpression\":{\"MulOpr\":{\"lhs\":");
                let l = serialize_expression(&o.lhs);
                out.append(l.as_str());
                out.append(",\"rhs\":");
                let r2 = serialize_expression(&o.rhs);
                out.append(r2.as_str());
                out.append("}}}");
            },
            BinaryExpr::DivOpr(o) => {
                out.append("{\"BinaryExpression\":{\"DivOpr\":{\"lhs\":");
                let l = serialize_expression(&o.lhs);
                out.append(l.as_str());
                out.append(",\"rhs\":");
                let r2 = serialize_expression(&o.rhs);
                out.append(r2.as_str());
                out.append("}}}");
            },
        },
    }
    proof {
        assert(out@ =~= json_expr(e@));
    }
    out
}

/// The JSON form of one statement.
pub fn serialize_statement(s: &Statement) -> (r: String)
    ensures
        r@ == json_stmt(s@),
{
    let mut out = String::new();
    match s {
        Statement::Expression(e) => {
            out.append("{\"Expression\":");
            let body = serialize_expression(e);
            out.append(body.as_str());
            out.append("}");
        },
        Statement::Assign(a) => {
            out.append("{\"Assign\":{\"variable\":");
            let v = serialize_expression(&a.variable);
            out.append(v.as_str());
            out.append(",\"value\":");
            let w = serialize_expression(&a.value);
            out.append(w.as_str());
            out.append(",\"mutable\":");
            if a.mutable {
                out.append("true");
            } else {
                out.append("false");
            }
            out.append("}}");
        },
    }
    proof {
        assert(out@ =~= json_stmt(s@));
    }
    out
}

/// The JSON form of a statement sequence: a JSON array in source order.
pub fn serialize_statements(stmts: &Vec<Statement>) -> (r: String)
    ensures
        r@ == json_stmts(stmts_m(stmts@)),
{
    let ghost ss = stmts_m(stmts@);
    let n = stmts.len();
    if n == 0 {
        let out = String::from_str("[]");
        return out;
    }
    let mut out = String::from_str("[");
    let first = serialize_statement(&stmts[0]);
    out.append(first.as_str());
    proof {
        assert(out@ + json_stmts_rest(ss, 1) + "]"@ =~= json_stmts(ss));
    }
    let mut i: usize = 1;
    while i < n
        invariant
            n == stmts@.len(),
            ss == stmts_m(stmts@),
            1 <= i <= n,
            out@ + json_stmts_rest(ss, i as int) + "]"@ == json_stmts(ss),
        decreases n - i,
    {
        out.append(",");
        let piece = serialize_statement(&stmts[i]);
        out.append(piece.as_str());
        proof {
            assert(json_stmts_rest(ss, i as int) =~= ","@ + json_stmt(ss[i as int])
                + json_stmts_rest(ss, i + 1));
            assert((out@ + json_stmts_rest(ss, i + 1)) + "]"@ =~= json_stmts(ss));
        }
        i = i + 1;
    }
    out.append("]");
    proof {
        assert(json_stmts_rest(ss, n as int) =~= Seq::<char>::empty());
        assert(out@ =~= json_stmts(ss));
    }
    out
}

/// Serialization is a pure function of the tree: two trees that are equal
/// serialize to the same text, however they were built and however often
/// the serializer runs.
pub proof fn lemma_serialization_pure(a: Seq<StmtM>, b: Seq<StmtM>)
    requires
        a == b,
    ensures
        json_stmts(a) == json_stmts(b),
{
}

} // verus!
