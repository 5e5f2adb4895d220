//! From the syntax tree of a text to the text's value: plain characters, or
//! the expression that yields it.

use vstd::prelude::*;
use crate::entities::{decode, decoded};
use crate::expr::{
    entry_views, expr_views, lemma_entry_views_push, lemma_expr_views_push, BinaryOp, ExprView,
    TmplExpr, UnaryOp,
};
use crate::number::{int_value, numeric_char, parse_char, parse_i32};
use crate::parser::TextEntity;
use crate::syntax::{PairView, ParsedPair, Rule};
use crate::utils::chars_of;

verus! {

/// The mathematical content of a [`TextEntity`] of strings.
pub enum TextEntityView {
    Static(Seq<char>),
    Dynamic(ExprView),
}

impl View for TextEntity<String> {
    type V = TextEntityView;

    open spec fn view(&self) -> TextEntityView {
        match self {
            TextEntity::Static(s) => TextEntityView::Static(s@),
            TextEntity::Dynamic(e) => TextEntityView::Dynamic(e@),
        }
    }
}

/// The views of a list of pieces of text.
pub open spec fn entity_views(v: Seq<TextEntity<String>>) -> Seq<TextEntityView> {
    Seq::new(v.len(), |i: int| v[i]@)
}

/// The operator that a rule stands for, if it is one with two operands.
pub open spec fn binary_op_of(rule: Rule) -> Option<BinaryOp> {
    match rule {
        Rule::Multi => Some(BinaryOp::Multiply),
        Rule::Div => Some(BinaryOp::Divide),
        Rule::Rem => Some(BinaryOp::Mod),
        Rule::Plus => Some(BinaryOp::Plus),
        Rule::Minus => Some(BinaryOp::Minus),
        Rule::Lt => Some(BinaryOp::Lt),
        Rule::Gt => Some(BinaryOp::Gt),
        Rule::Lte => Some(BinaryOp::Lte),
        Rule::Gte => Some(BinaryOp::Gte),
        Rule::Eq => Some(BinaryOp::Eq),
        Rule::Ne => Some(BinaryOp::Ne),
        Rule::EqFull => Some(BinaryOp::EqFull),
        Rule::NeFull => Some(BinaryOp::NeFull),
        Rule::BitAnd => Some(BinaryOp::BitAnd),
        Rule::BitXor => Some(BinaryOp::BitXor),
        Rule::BitOr => Some(BinaryOp::BitOr),
        Rule::And => Some(BinaryOp::LogicAnd),
        Rule::Or => Some(BinaryOp::LogicOr),
        _ => None,
    }
}

/// The operator that a rule stands for, if it is one with one operand.
pub open spec fn unary_op_of(rule: Rule) -> Option<UnaryOp> {
    match rule {
        Rule::Reverse => Some(UnaryOp::Reverse),
        Rule::BitReverse => Some(UnaryOp::BitReverse),
        Rule::Positive => Some(UnaryOp::Positive),
        Rule::Negative => Some(UnaryOp::Negative),
        _ => None,
    }
}

/// What a name stands for: one of the four literals that are written as
/// words, or an identifier.
pub open spec fn keyword_or_ident(name: Seq<char>) -> ExprView {
    if name == "undefined"@ {
        ExprView::LitUndefined
    } else if name == "null"@ {
        ExprView::LitNull
    } else if name == "true"@ {
        ExprView::LitBool(true)
    } else if name == "false"@ {
        ExprView::LitBool(false)
    } else {
        ExprView::Ident(name)
    }
}

/// The character that an escape, written with its backslash, stands for.
/// After `x` or `u` stands the code of the character, in decimal digits. A
/// code that is none, like an escape without a character, gives the
/// character with the code 0.
pub open spec fn escaped_char(s: Seq<char>) -> char {
    if s.len() < 2 {
        '\0'
    } else if s[1] == 'r' {
        '\r'
    } else if s[1] == 'n' {
        '\n'
    } else if s[1] == 't' {
        '\t'
    } else if s[1] == 'b' {
        '\x08'
    } else if s[1] == 'f' {
        '\x0C'
    } else if s[1] == 'v' {
        '\x0B'
    } else if s[1] == '0' {
        '\0'
    } else if s[1] == 'x' || s[1] == 'u' {
        match numeric_char(s.skip(2), 10) {
            Some(c) => c,
            None => '\0',
        }
    } else {
        s[1]
    }
}

/// The characters of one piece of a string literal.
pub open spec fn str_piece(p: PairView) -> Seq<char> {
    if p.rule == Rule::LitStrEscaped {
        seq![escaped_char(p.text)]
    } else {
        p.text
    }
}

/// The characters of the pieces of a string literal, one after the other.
pub open spec fn str_pieces(pieces: Seq<PairView>) -> Seq<char>
    decreases pieces.len(),
{
    if pieces.len() == 0 {
        Seq::empty()
    } else {
        str_pieces(pieces.drop_last()) + str_piece(pieces.last())
    }
}

/// The characters that a string literal writes.
pub open spec fn str_content(p: PairView) -> Seq<char> {
    str_pieces(p.inner)
}

/// The whole number that `text` writes in the given radix; 0 where it
/// writes none that fits.
pub open spec fn int_or_zero(text: Seq<char>, radix: nat) -> i32 {
    match int_value(text, radix) {
        Some(v) => v,
        None => 0,
    }
}

/// The literal that a number writes: a whole number in hexadecimal, octal or
/// decimal digits, or, where a fraction or an exponent follows decimal
/// digits, the number as it is written.
pub open spec fn number_expr(p: PairView) -> ExprView {
    if p.inner.len() == 0 {
        ExprView::LitInt(0)
    } else {
        let main = p.inner[0];
        match main.rule {
            Rule::LitNumberHex => ExprView::LitInt(int_or_zero(main.text, 16)),
            Rule::LitNumberOct => ExprView::LitInt(int_or_zero(main.text, 8)),
            Rule::LitNumberDec => if p.inner.len() > 2 {
                ExprView::LitFloat(main.text + p.inner[1].text + p.inner[2].text)
            } else if p.inner.len() > 1 {
                ExprView::LitFloat(main.text + p.inner[1].text)
            } else {
                ExprView::LitInt(int_or_zero(main.text, 10))
            },
            _ => ExprView::LitInt(0),
        }
    }
}

/// The expression of an operand at the given level of the ladder of
/// operators with two operands: the lowest level holds expressions with one
/// operand, each other level those of the level below.
pub open spec fn operand_expr(p: PairView, level: nat) -> ExprView
    decreases p, p.inner.len() + 1,
{
    if level <= 1 {
        unary_expr(p)
    } else {
        binary_expr(p, (level - 1) as nat)
    }
}

/// The first operand and the first `n` operators of a chain, each with its
/// operand, taken from the left.
pub open spec fn fold_binary(p: PairView, level: nat, n: nat) -> ExprView
    decreases p, n,
{
    if p.inner.len() == 0 {
        ExprView::LitUndefined
    } else if n == 0 {
        operand_expr(p.inner[0], level)
    } else {
        let left = fold_binary(p, level, (n - 1) as nat);
        if 2 * n < p.inner.len() {
            match binary_op_of(p.inner[2 * n - 1].rule) {
                Some(op) => ExprView::Binary(
                    op,
                    Box::new(left),
                    Box::new(operand_expr(p.inner[2 * n as int], level)),
                ),
                None => left,
            }
        } else {
            left
        }
    }
}

/// The expression of a chain of operators with two operands: they group
/// from the left.
pub open spec fn binary_expr(p: PairView, level: nat) -> ExprView
    decreases p, p.inner.len(),
{
    if p.inner.len() == 0 {
        ExprView::LitUndefined
    } else {
        fold_binary(p, level, ((p.inner.len() - 1) / 2) as nat)
    }
}

/// The expression of a condition: a chain of `||`, or the choice between
/// two conditions by such a chain.
pub open spec fn cond_expr(p: PairView) -> ExprView
    decreases p, p.inner.len(),
{
    if p.inner.len() == 0 {
        ExprView::LitUndefined
    } else if p.inner.len() >= 3 {
        ExprView::Cond(
            Box::new(binary_expr(p.inner[0], 9)),
            Box::new(cond_expr(p.inner[1])),
            Box::new(cond_expr(p.inner[2])),
        )
    } else {
        binary_expr(p.inner[0], 9)
    }
}

/// The conditions of a list, in their order.
pub open spec fn cond_exprs(items: Seq<PairView>) -> Seq<ExprView>
    decreases items, 0nat,
{
    Seq::new(
        items.len(),
        |i: int|
            if 0 <= i < items.len() {
                cond_expr(items[i])
            } else {
                arbitrary()
            },
    )
}

/// The expression of an operator with one operand, or of what stands in
/// its place.
pub open spec fn unary_expr(p: PairView) -> ExprView
    decreases p, p.inner.len(),
{
    if p.inner.len() == 0 {
        ExprView::LitUndefined
    } else if p.inner[0].rule == Rule::Member {
        member_expr(p.inner[0])
    } else if p.inner.len() < 2 {
        ExprView::LitUndefined
    } else {
        match unary_op_of(p.inner[0].rule) {
            Some(op) => ExprView::Unary(op, Box::new(unary_expr(p.inner[1]))),
            None => unary_expr(p.inner[1]),
        }
    }
}

/// A value with the first `n` of the accesses and calls that follow it.
pub open spec fn fold_member(p: PairView, n: nat) -> ExprView
    decreases p, n,
{
    if p.inner.len() == 0 {
        ExprView::LitUndefined
    } else if n == 0 || n >= p.inner.len() {
        value_expr(p.inner[0])
    } else {
        let base = fold_member(p, (n - 1) as nat);
        let op = p.inner[n as int];
        match op.rule {
            Rule::StaticMember => if op.inner.len() > 0 {
                ExprView::StaticMember(Box::new(base), op.inner[0].text)
            } else {
                base
            },
            Rule::DynamicMember => if op.inner.len() > 0 {
                ExprView::DynamicMember(Box::new(base), Box::new(cond_expr(op.inner[0])))
            } else {
                base
            },
            Rule::FuncCall => ExprView::FuncCall(Box::new(base), cond_exprs(op.inner)),
            _ => base,
        }
    }
}

/// The expression of a value with the accesses and calls that follow it.
pub open spec fn member_expr(p: PairView) -> ExprView
    decreases p, p.inner.len(),
{
    if p.inner.len() == 0 {
        ExprView::LitUndefined
    } else {
        fold_member(p, (p.inner.len() - 1) as nat)
    }
}

/// The expression of a value: a condition in brackets, a literal or a name.
pub open spec fn value_expr(p: PairView) -> ExprView
    decreases p, p.inner.len(),
{
    if p.inner.len() == 0 {
        ExprView::LitUndefined
    } else {
        let q = p.inner[0];
        match q.rule {
            Rule::Cond => cond_expr(q),
            Rule::LitStr => ExprView::LitStr(str_content(q)),
            Rule::LitNumber => number_expr(q),
            Rule::LitObj => obj_expr(q),
            Rule::LitArr => ExprView::LitArr(cond_exprs(q.inner)),
            Rule::Ident => keyword_or_ident(q.text),
            _ => ExprView::LitUndefined,
        }
    }
}

/// The key of an entry of an object literal: a name or a string; a spread
/// has none.
pub open spec fn entry_key(item: PairView) -> Option<Seq<char>> {
    if item.inner.len() == 0 {
        None
    } else {
        match item.inner[0].rule {
            Rule::Ident => Some(item.inner[0].text),
            Rule::LitStr => Some(str_content(item.inner[0])),
            _ => None,
        }
    }
}

/// One entry of an object literal. An entry without a value has the
/// identifier of its key as its value.
pub open spec fn obj_entry(item: PairView) -> (Option<Seq<char>>, ExprView)
    decreases item, item.inner.len(),
{
    (
        entry_key(item),
        if item.inner.len() > 1 {
            cond_expr(item.inner[1])
        } else {
            match entry_key(item) {
                Some(k) => ExprView::Ident(k),
                None => ExprView::LitUndefined,
            }
        },
    )
}

/// The entries of an object literal, in their order.
pub open spec fn obj_entries(items: Seq<PairView>) -> Seq<(Option<Seq<char>>, ExprView)>
    decreases items, 0nat,
{
    Seq::new(
        items.len(),
        |i: int|
            if 0 <= i < items.len() {
                obj_entry(items[i])
            } else {
                arbitrary()
            },
    )
}

/// The expression of an object literal.
pub open spec fn obj_expr(p: PairView) -> ExprView
    decreases p, p.inner.len(),
{
    ExprView::LitObj(obj_entries(p.inner))
}

/// The expression between braces: a condition, or the entries of an object
/// without the object's own braces.
pub open spec fn expr_or_obj(p: PairView) -> ExprView {
    if p.inner.len() == 0 {
        ExprView::LitUndefined
    } else {
        match p.inner[0].rule {
            Rule::Cond => cond_expr(p.inner[0]),
            Rule::ObjBody => obj_expr(p.inner[0]),
            _ => ExprView::LitUndefined,
        }
    }
}

/// One piece of a text: an expression, a character reference with what it
/// stands for, or plain characters.
pub open spec fn segment_of(seg: PairView) -> TextEntityView {
    if seg.inner.len() == 0 {
        TextEntityView::Static(Seq::empty())
    } else {
        let q = seg.inner[0];
        match q.rule {
            Rule::ExprOrObj => TextEntityView::Dynamic(expr_or_obj(q)),
            Rule::Entity => TextEntityView::Static(decoded(q.text)),
            Rule::PureText => TextEntityView::Static(q.text),
            _ => TextEntityView::Static(Seq::empty()),
        }
    }
}

/// The pieces of a text, in their order.
pub open spec fn segments_of(p: PairView) -> Seq<TextEntityView> {
    Seq::new(p.inner.len(), |i: int| segment_of(p.inner[i]))
}

/// One of the pieces is an expression.
pub open spec fn has_dynamic(segs: Seq<TextEntityView>) -> bool {
    exists|i: int| 0 <= i < segs.len() && #[trigger] segs[i] is Dynamic
}

/// The characters of the static pieces among `segs`, one after the other.
pub open spec fn static_text(segs: Seq<TextEntityView>) -> Seq<char>
    decreases segs.len(),
{
    if segs.len() == 0 {
        Seq::empty()
    } else {
        static_text(segs.drop_last()) + match segs.last() {
            TextEntityView::Static(s) => s,
            TextEntityView::Dynamic(_) => Seq::empty(),
        }
    }
}

/// One piece as an operand of a concatenation. An expression that is not
/// the only piece is taken as a string.
pub open spec fn piece_expr(seg: TextEntityView, multi: bool) -> ExprView {
    match seg {
        TextEntityView::Static(s) => ExprView::LitStr(s),
        TextEntityView::Dynamic(e) => if multi {
            ExprView::ToStringWithoutUndefined(Box::new(e))
        } else {
            e
        },
    }
}

/// The concatenation `cur` with one more piece. Static text that follows
/// static text is joined to it.
pub open spec fn append_piece(cur: ExprView, seg: TextEntityView, multi: bool) -> ExprView {
    let plain = ExprView::Binary(BinaryOp::Plus, Box::new(cur), Box::new(piece_expr(seg, multi)));
    match seg {
        TextEntityView::Static(dest) => match cur {
            ExprView::Binary(BinaryOp::Plus, l, r) => match *r {
                ExprView::LitStr(src) => ExprView::Binary(
                    BinaryOp::Plus,
                    l,
                    Box::new(ExprView::LitStr(src + dest)),
                ),
                _ => plain,
            },
            ExprView::LitStr(src) => ExprView::LitStr(src + dest),
            _ => plain,
        },
        TextEntityView::Dynamic(_) => plain,
    }
}

/// The concatenation of the first piece and the `n` pieces after it.
pub open spec fn merged_expr(segs: Seq<TextEntityView>, n: nat) -> ExprView
    decreases n,
{
    if segs.len() == 0 {
        ExprView::LitStr(Seq::empty())
    } else if n == 0 || n >= segs.len() {
        piece_expr(segs[0], segs.len() > 1)
    } else {
        append_piece(merged_expr(segs, (n - 1) as nat), segs[n as int], segs.len() > 1)
    }
}

/// The value of a text with the given pieces: where none of them is an
/// expression, the characters of all; else the expression that joins them.
pub open spec fn merged(segs: Seq<TextEntityView>) -> TextEntityView {
    if has_dynamic(segs) {
        TextEntityView::Dynamic(merged_expr(segs, (segs.len() - 1) as nat))
    } else {
        TextEntityView::Static(static_text(segs))
    }
}

/// The value of a text.
pub open spec fn text_entity(p: PairView) -> TextEntityView {
    merged(segments_of(p))
}

/// The operator that a rule stands for, if it is one with two operands.
fn binary_op(rule: Rule) -> (r: Option<BinaryOp>)
    ensures
        r == binary_op_of(rule),
{
    match rule {
        Rule::Multi => Some(BinaryOp::Multiply),
        Rule::Div => Some(BinaryOp::Divide),
        Rule::Rem => Some(BinaryOp::Mod),
        Rule::Plus => Some(BinaryOp::Plus),
        Rule::Minus => Some(BinaryOp::Minus),
        Rule::Lt => Some(BinaryOp::Lt),
        Rule::Gt => Some(BinaryOp::Gt),
        Rule::Lte => Some(BinaryOp::Lte),
        Rule::Gte => Some(BinaryOp::Gte),
        Rule::Eq => Some(BinaryOp::Eq),
        Rule::Ne => Some(BinaryOp::Ne),
        Rule::EqFull => Some(BinaryOp::EqFull),
        Rule::NeFull => Some(BinaryOp::NeFull),
        Rule::BitAnd => Some(BinaryOp::BitAnd),
        Rule::BitXor => Some(BinaryOp::BitXor),
        Rule::BitOr => Some(BinaryOp::BitOr),
        Rule::And => Some(BinaryOp::LogicAnd),
        Rule::Or => Some(BinaryOp::LogicOr),
        _ => None,
    }
}

/// The expression of `op` with the operands `x` and `y`.
fn make_binary(op: BinaryOp, x: Box<TmplExpr>, y: Box<TmplExpr>) -> (r: Box<TmplExpr>)
    ensures
        r@ == ExprView::Binary(op, Box::new(x@), Box::new(y@)),
{
    Box::new(
        match op {
            BinaryOp::Multiply => TmplExpr::Multiply(x, y),
            BinaryOp::Divide => TmplExpr::Divide(x, y),
            BinaryOp::Mod => TmplExpr::Mod(x, y),
            BinaryOp::Plus => TmplExpr::Plus(x, y),
            BinaryOp::Minus => TmplExpr::Minus(x, y),
            BinaryOp::Lt => TmplExpr::Lt(x, y),
            BinaryOp::Gt => TmplExpr::Gt(x, y),
            BinaryOp::Lte => TmplExpr::Lte(x, y),
            BinaryOp::Gte => TmplExpr::Gte(x, y),
            BinaryOp::Eq => TmplExpr::Eq(x, y),
            BinaryOp::Ne => TmplExpr::Ne(x, y),
            BinaryOp::EqFull => TmplExpr::EqFull(x, y),
            BinaryOp::NeFull => TmplExpr::NeFull(x, y),
            BinaryOp::BitAnd => TmplExpr::BitAnd(x, y),
            BinaryOp::BitXor => TmplExpr::BitXor(x, y),
            BinaryOp::BitOr => TmplExpr::BitOr(x, y),
            BinaryOp::LogicAnd => TmplExpr::LogicAnd(x, y),
            BinaryOp::LogicOr => TmplExpr::LogicOr(x, y),
        },
    )
}

/// What a name stands for: a literal that is written as a word, or an
/// identifier.
pub fn parse_ident_or_keyword(pair: &ParsedPair) -> (r: Box<TmplExpr>)
    ensures
        r@ == keyword_or_ident(pair@.text),
{
    let name = pair.text.as_str();
    if name.eq("undefined") {
        Box::new(TmplExpr::LitUndefined)
    } else if name.eq("null") {
        Box::new(TmplExpr::LitNull)
    } else if name.eq("true") {
        Box::new(TmplExpr::LitBool(true))
    } else if name.eq("false") {
        Box::new(TmplExpr::LitBool(false))
    } else {
        Box::new(TmplExpr::Ident(name.to_owned()))
    }
}

/// The character that an escape, written with its backslash, stands for.
fn unescape(s: &str) -> (r: char)
    ensures
        r == escaped_char(s@),
{
    let chars = chars_of(s);
    if chars.len() < 2 {
        return '\0';
    }
    let c = chars[1];
    if c == 'r' {
        '\r'
    } else if c == 'n' {
        '\n'
    } else if c == 't' {
        '\t'
    } else if c == 'b' {
        '\x08'
    } else if c == 'f' {
        '\x0C'
    } else if c == 'v' {
        '\x0B'
    } else if c == '0' {
        '\0'
    } else if c == 'x' || c == 'u' {
        proof {
            assert(chars@.subrange(2, chars.len() as int) =~= chars@.skip(2));
        }
        match parse_char(&chars, 2, chars.len(), 10) {
            Some(c) => c,
            None => '\0',
        }
    } else {
        c
    }
}

/// The characters that a string literal writes.
pub fn parse_str_content(pair: &ParsedPair) -> (r: String)
    ensures
        r@ == str_content(pair@),
{
    let mut out = String::new();
    let ghost pieces = pair@.inner;
    let mut i: usize = 0;
    proof {
        assert(pieces.take(0) =~= Seq::<PairView>::empty());
    }
    while i < pair.inner.len()
        invariant
            i <= pair.inner.len(),
            pieces == pair@.inner,
            pieces.len() == pair.inner.len(),
            out@ == str_pieces(pieces.take(i as int)),
        decreases pair.inner.len() - i,
    {
        let piece = &pair.inner[i];
        proof {
            assert(pieces[i as int] == piece@);
            assert(pieces.take(i + 1).drop_last() =~= pieces.take(i as int));
            assert(pieces.take(i + 1).last() == piece@);
        }
        match piece.rule {
            Rule::LitStrEscaped => {
                let ghost before = out@;
                let c = unescape(piece.text.as_str());
                out.push(c);
                proof {
                    assert(before.push(c) =~= before + seq![c]);
                }
            },
            _ => {
                out.append(piece.text.as_str());
            },
        }
        i = i + 1;
    }
    proof {
        assert(pieces.take(i as int) =~= pieces);
    }
    out
}

/// The literal of a string.
pub fn parse_str(pair: &ParsedPair) -> (r: Box<TmplExpr>)
    ensures
        r@ == ExprView::LitStr(str_content(pair@)),
{
    Box::new(TmplExpr::LitStr(parse_str_content(pair)))
}

/// The whole number that `text` writes in the given radix; 0 where it
/// writes none that fits.
fn parse_int_or_zero(text: &str, radix: u32) -> (r: i32)
    requires
        1 <= radix <= 36,
    ensures
        r == int_or_zero(text@, radix as nat),
{
    let chars = chars_of(text);
    proof {
        assert(chars@.subrange(0, chars.len() as int) =~= text@);
    }
    match parse_i32(&chars, 0, chars.len(), radix) {
        Some(v) => v,
        None => 0,
    }
}

/// The literal of a number.
pub fn parse_number(pair: &ParsedPair) -> (r: Box<TmplExpr>)
    ensures
        r@ == number_expr(pair@),
{
    if pair.inner.len() == 0 {
        return Box::new(TmplExpr::LitInt(0));
    }
    let main = &pair.inner[0];
    proof {
        assert(pair@.inner[0] == main@);
    }
    let num = match main.rule {
        Rule::LitNumberHex => TmplExpr::LitInt(parse_int_or_zero(main.text.as_str(), 16)),
        Rule::LitNumberOct => TmplExpr::LitInt(parse_int_or_zero(main.text.as_str(), 8)),
        Rule::LitNumberDec => {
            if pair.inner.len() > 1 {
                let mut s = main.text.clone();
                s.append(pair.inner[1].text.as_str());
                proof {
                    assert(pair@.inner[1] == pair.inner@[1]@);
                }
                if pair.inner.len() > 2 {
                    s.append(pair.inner[2].text.as_str());
                    proof {
                        assert(pair@.inner[2] == pair.inner@[2]@);
                    }
                }
                TmplExpr::LitFloat(s)
            } else {
                TmplExpr::LitInt(parse_int_or_zero(main.text.as_str(), 10))
            }
        },
        _ => TmplExpr::LitInt(0),
    };
    Box::new(num)
}

/// The conditions of a list, in their order.
fn parse_cond_list(pair: &ParsedPair) -> (r: Vec<TmplExpr>)
    ensures
        expr_views(r@) == cond_exprs(pair@.inner),
    decreases pair, 1int,
{
    let mut out: Vec<TmplExpr> = Vec::new();
    let ghost target = cond_exprs(pair@.inner);
    let mut i: usize = 0;
    proof {
        assert(expr_views(out@) =~= target.take(0));
    }
    while i < pair.inner.len()
        invariant
            i <= pair.inner.len(),
            target == cond_exprs(pair@.inner),
            target.len() == pair.inner.len(),
            expr_views(out@) == target.take(i as int),
        decreases pair.inner.len() - i,
    {
        let ghost before = expr_views(out@);
        proof {
            assert(pair@.inner[i as int] == pair.inner@[i as int]@);
            assert(decreases_to!(*pair => pair.inner));
            assert(decreases_to!(pair.inner => pair.inner@));
            assert(decreases_to!(pair.inner@ => pair.inner@[i as int]));
        }
        let e = parse_cond(&pair.inner[i]);
        proof {
            lemma_expr_views_push(out@, *e);
        }
        out.push(*e);
        proof {
            assert(target.take(i + 1) =~= target.take(i as int).push(target[i as int]));
        }
        i = i + 1;
    }
    proof {
        assert(target.take(i as int) =~= target);
    }
    out
}

/// The literal of an array.
pub fn parse_arr(pair: &ParsedPair) -> (r: Box<TmplExpr>)
    ensures
        r@ == ExprView::LitArr(cond_exprs(pair@.inner)),
    decreases pair, 2int,
{
    Box::new(TmplExpr::LitArr(parse_cond_list(pair)))
}

/// One entry of an object literal.
fn parse_obj_item(item: &ParsedPair) -> (r: (Option<String>, TmplExpr))
    ensures
        (crate::expr::opt_string_view(r.0), r.1@) == obj_entry(item@),
    decreases item, 1int,
{
    if item.inner.len() == 0 {
        return (None, TmplExpr::LitUndefined);
    }
    let first = &item.inner[0];
    proof {
        assert(item@.inner[0] == first@);
    }
    let k: Option<String> = match first.rule {
        Rule::Ident => Some(first.text.clone()),
        Rule::LitStr => Some(parse_str_content(first)),
        _ => None,
    };
    let v = if item.inner.len() > 1 {
        proof {
            assert(item@.inner[1] == item.inner@[1]@);
            assert(decreases_to!(*item => item.inner));
            assert(decreases_to!(item.inner => item.inner@));
            assert(decreases_to!(item.inner@ => item.inner@[1]));
        }
        *parse_cond(&item.inner[1])
    } else {
        match &k {
            Some(k) => TmplExpr::Ident(k.clone()),
            None => TmplExpr::LitUndefined,
        }
    };
    (k, v)
}

/// The literal of an object.
pub fn parse_obj(pair: &ParsedPair) -> (r: Box<TmplExpr>)
    ensures
        r@ == obj_expr(pair@),
    decreases pair, 2int,
{
    let mut out: Vec<(Option<String>, TmplExpr)> = Vec::new();
    let ghost target = obj_entries(pair@.inner);
    let mut i: usize = 0;
    proof {
        assert(entry_views(out@) =~= target.take(0));
    }
    while i < pair.inner.len()
        invariant
            i <= pair.inner.len(),
            target == obj_entries(pair@.inner),
            target.len() == pair.inner.len(),
            entry_views(out@) == target.take(i as int),
        decreases pair.inner.len() - i,
    {
        let ghost before = entry_views(out@);
        proof {
            assert(pair@.inner[i as int] == pair.inner@[i as int]@);
            assert(decreases_to!(*pair => pair.inner));
            assert(decreases_to!(pair.inner => pair.inner@));
            assert(decreases_to!(pair.inner@ => pair.inner@[i as int]));
        }
        let entry = parse_obj_item(&pair.inner[i]);
        proof {
            lemma_entry_views_push(out@, entry);
            assert(target[i as int] == obj_entry(pair@.inner[i as int]));
        }
        out.push(entry);
        proof {
            assert(target.take(i + 1) =~= target.take(i as int).push(target[i as int]));
        }
        i = i + 1;
    }
    proof {
        assert(target.take(i as int) =~= target);
    }
    Box::new(TmplExpr::LitObj(out))
}

/// The expression of a value: a condition in brackets, a literal or a name.
pub fn parse_value(pair: &ParsedPair) -> (r: Box<TmplExpr>)
    ensures
        r@ == value_expr(pair@),
    decreases pair, 0int,
{
    if pair.inner.len() == 0 {
        return Box::new(TmplExpr::LitUndefined);
    }
    let q = &pair.inner[0];
    proof {
        assert(pair@.inner[0] == q@);
        assert(decreases_to!(*pair => pair.inner));
        assert(decreases_to!(pair.inner => pair.inner@));
        assert(decreases_to!(pair.inner@ => pair.inner@[0]));
    }
    match q.rule {
        Rule::Cond => parse_cond(q),
        Rule::LitStr => parse_str(q),
        Rule::LitNumber => parse_number(q),
        Rule::LitObj => parse_obj(q),
        Rule::LitArr => parse_arr(q),
        Rule::Ident => parse_ident_or_keyword(q),
        _ => Box::new(TmplExpr::LitUndefined),
    }
}

/// The expression of a value with the accesses and calls that follow it.
pub fn parse_member(pair: &ParsedPair) -> (r: Box<TmplExpr>)
    ensures
        r@ == member_expr(pair@),
    decreases pair, 1int,
{
    let n = pair.inner.len();
    if n == 0 {
        return Box::new(TmplExpr::LitUndefined);
    }
    proof {
        assert(pair@.inner[0] == pair.inner@[0]@);
        assert(decreases_to!(*pair => pair.inner));
        assert(decreases_to!(pair.inner => pair.inner@));
        assert(decreases_to!(pair.inner@ => pair.inner@[0]));
    }
    let mut ret = parse_value(&pair.inner[0]);
    let mut i: usize = 1;
    while i < n
        invariant
            1 <= i <= n,
            n == pair.inner.len(),
            n == pair@.inner.len(),
            ret@ == fold_member(pair@, (i - 1) as nat),
        decreases n - i,
    {
        let op = &pair.inner[i];
        proof {
            assert(pair@.inner[i as int] == op@);
            assert(decreases_to!(*pair => pair.inner));
            assert(decreases_to!(pair.inner => pair.inner@));
            assert(decreases_to!(pair.inner@ => pair.inner@[i as int]));
            assert(decreases_to!(*op => op.inner));
            assert(decreases_to!(op.inner => op.inner@));
        }
        match op.rule {
            Rule::StaticMember => {
                if op.inner.len() > 0 {
                    proof {
                        assert(op@.inner[0] == op.inner@[0]@);
                    }
                    ret = Box::new(TmplExpr::StaticMember(ret, op.inner[0].text.clone()));
                }
            },
            Rule::DynamicMember => {
                if op.inner.len() > 0 {
                    proof {
                        assert(op@.inner[0] == op.inner@[0]@);
                        assert(decreases_to!(op.inner@ => op.inner@[0]));
                    }
                    let next = parse_cond(&op.inner[0]);
                    ret = Box::new(TmplExpr::DynamicMember(ret, next));
                }
            },
            Rule::FuncCall => {
                let next = parse_cond_list(op);
                ret = Box::new(TmplExpr::FuncCall(ret, next));
            },
            _ => {},
        }
        i = i + 1;
    }
    ret
}

/// The expression of an operator with one operand, or of what stands in its
/// place.
pub fn parse_unary(pair: &ParsedPair) -> (r: Box<TmplExpr>)
    ensures
        r@ == unary_expr(pair@),
    decreases pair, 0int,
{
    if pair.inner.len() == 0 {
        return Box::new(TmplExpr::LitUndefined);
    }
    let op = &pair.inner[0];
    proof {
        assert(pair@.inner[0] == op@);
        assert(decreases_to!(*pair => pair.inner));
        assert(decreases_to!(pair.inner => pair.inner@));
        assert(decreases_to!(pair.inner@ => pair.inner@[0]));
    }
    match op.rule {
        Rule::Member => {
            return parse_member(op);
        },
        _ => {},
    }
    if pair.inner.len() < 2 {
        return Box::new(TmplExpr::LitUndefined);
    }
    proof {
        assert(pair@.inner[1] == pair.inner@[1]@);
        assert(decreases_to!(pair.inner@ => pair.inner@[1]));
    }
    let next = parse_unary(&pair.inner[1]);
    match op.rule {
        Rule::Reverse => Box::new(TmplExpr::Reverse(next)),
        Rule::BitReverse => Box::new(TmplExpr::BitReverse(next)),
        Rule::Positive => Box::new(TmplExpr::Positive(next)),
        Rule::Negative => Box::new(TmplExpr::Negative(next)),
        _ => next,
    }
}

/// The expression of an operand at the given level.
fn parse_operand(pair: &ParsedPair, level: u8) -> (r: Box<TmplExpr>)
    ensures
        r@ == operand_expr(pair@, level as nat),
    decreases pair, 2int,
{
    if level <= 1 {
        parse_unary(pair)
    } else {
        parse_binary(pair, level - 1)
    }
}

/// The expression of a chain of operators with two operands at the given
/// level.
fn parse_binary(pair: &ParsedPair, level: u8) -> (r: Box<TmplExpr>)
    ensures
        r@ == binary_expr(pair@, level as nat),
    decreases pair, 1int,
{
    let n = pair.inner.len();
    if n == 0 {
        return Box::new(TmplExpr::LitUndefined);
    }
    proof {
        assert(pair@.inner[0] == pair.inner@[0]@);
        assert(decreases_to!(*pair => pair.inner));
        assert(decreases_to!(pair.inner => pair.inner@));
        assert(decreases_to!(pair.inner@ => pair.inner@[0]));
    }
    let mut ret = parse_operand(&pair.inner[0], level);
    let mut j: usize = 1;
    let ghost mut k: nat = 1;
    while j < n - 1
        invariant
            n == pair.inner.len(),
            n == pair@.inner.len(),
            n >= 1,
            j == 2 * k - 1,
            k >= 1,
            j <= n,
            ret@ == fold_binary(pair@, level as nat, (k - 1) as nat),
        decreases n - j,
    {
        proof {
            assert(pair@.inner[j as int] == pair.inner@[j as int]@);
            assert(pair@.inner[j + 1] == pair.inner@[j + 1]@);
            assert(decreases_to!(*pair => pair.inner));
            assert(decreases_to!(pair.inner => pair.inner@));
            assert(decreases_to!(pair.inner@ => pair.inner@[j + 1]));
        }
        match binary_op(pair.inner[j].rule) {
            Some(op) => {
                let next = parse_operand(&pair.inner[j + 1], level);
                ret = make_binary(op, ret, next);
            },
            None => {},
        }
        j = j + 2;
        proof {
            k = k + 1;
        }
    }
    proof {
        assert((k - 1) as nat == ((n - 1) / 2) as nat);
    }
    ret
}

/// The expression of a chain of `*`, `/` and `%`.
pub fn parse_multi(pair: &ParsedPair) -> (r: Box<TmplExpr>)
    ensures
        r@ == binary_expr(pair@, 1),
    decreases pair, 2int,
{
    parse_binary(pair, 1)
}

/// The expression of a chain of `+` and `-`.
pub fn parse_plus(pair: &ParsedPair) -> (r: Box<TmplExpr>)
    ensures
        r@ == binary_expr(pair@, 2),
    decreases pair, 2int,
{
    parse_binary(pair, 2)
}

/// The expression of a chain of `<`, `>`, `<=` and `>=`.
pub fn parse_cmp(pair: &ParsedPair) -> (r: Box<TmplExpr>)
    ensures
        r@ == binary_expr(pair@, 3),
    decreases pair, 2int,
{
    parse_binary(pair, 3)
}

/// The expression of a chain of `==`, `!=`, `===` and `!==`.
pub fn parse_eq(pair: &ParsedPair) -> (r: Box<TmplExpr>)
    ensures
        r@ == binary_expr(pair@, 4),
    decreases pair, 2int,
{
    parse_binary(pair, 4)
}

/// The expression of a chain of `&`.
pub fn parse_bit_and(pair: &ParsedPair) -> (r: Box<TmplExpr>)
    ensures
        r@ == binary_expr(pair@, 5),
    decreases pair, 2int,
{
    parse_binary(pair, 5)
}

/// The expression of a chain of `^`.
pub fn parse_bit_xor(pair: &ParsedPair) -> (r: Box<TmplExpr>)
    ensures
        r@ == binary_expr(pair@, 6),
    decreases pair, 2int,
{
    parse_binary(pair, 6)
}

/// The expression of a chain of `|`.
pub fn parse_bit_or(pair: &ParsedPair) -> (r: Box<TmplExpr>)
    ensures
        r@ == binary_expr(pair@, 7),
    decreases pair, 2int,
{
    parse_binary(pair, 7)
}

/// The expression of a chain of `&&`.
pub fn parse_and(pair: &ParsedPair) -> (r: Box<TmplExpr>)
    ensures
        r@ == binary_expr(pair@, 8),
    decreases pair, 2int,
{
    parse_binary(pair, 8)
}

/// The expression of a chain of `||`.
pub fn parse_or(pair: &ParsedPair) -> (r: Box<TmplExpr>)
    ensures
        r@ == binary_expr(pair@, 9),
    decreases pair, 2int,
{
    parse_binary(pair, 9)
}

/// The expression of a condition.
pub fn parse_cond(pair: &ParsedPair) -> (r: Box<TmplExpr>)
    ensures
        r@ == cond_expr(pair@),
    decreases pair, 0int,
{
    if pair.inner.len() == 0 {
        return Box::new(TmplExpr::LitUndefined);
    }
    proof {
        assert(pair@.inner[0] == pair.inner@[0]@);
        assert(decreases_to!(*pair => pair.inner));
        assert(decreases_to!(pair.inner => pair.inner@));
        assert(decreases_to!(pair.inner@ => pair.inner@[0]));
    }
    let ret = parse_or(&pair.inner[0]);
    if pair.inner.len() >= 3 {
        proof {
            assert(pair@.inner[1] == pair.inner@[1]@);
            assert(pair@.inner[2] == pair.inner@[2]@);
            assert(decreases_to!(pair.inner@ => pair.inner@[1]));
            assert(decreases_to!(pair.inner@ => pair.inner@[2]));
        }
        let yes = parse_cond(&pair.inner[1]);
        let no = parse_cond(&pair.inner[2]);
        Box::new(TmplExpr::Cond(ret, yes, no))
    } else {
        ret
    }
}

/// The expression between braces.
pub fn parse_expr_or_obj(pair: &ParsedPair) -> (r: Box<TmplExpr>)
    ensures
        r@ == expr_or_obj(pair@),
{
    if pair.inner.len() == 0 {
        return Box::new(TmplExpr::LitUndefined);
    }
    let q = &pair.inner[0];
    proof {
        assert(pair@.inner[0] == q@);
    }
    match q.rule {
        Rule::Cond => parse_cond(q),
        Rule::ObjBody => parse_obj(q),
        _ => Box::new(TmplExpr::LitUndefined),
    }
}

/// One piece of a text.
fn parse_segment_entity(seg: &ParsedPair) -> (r: TextEntity<String>)
    ensures
        r@ == segment_of(seg@),
{
    if seg.inner.len() == 0 {
        return TextEntity::Static(String::new());
    }
    let q = &seg.inner[0];
    proof {
        assert(seg@.inner[0] == q@);
    }
    match q.rule {
        Rule::ExprOrObj => TextEntity::Dynamic(parse_expr_or_obj(q)),
        Rule::Entity => TextEntity::Static(decode(q.text.as_str())),
        Rule::PureText => TextEntity::Static(q.text.clone()),
        _ => TextEntity::Static(String::new()),
    }
}

/// Whether one of the pieces is an expression.
fn any_dynamic(segs: &Vec<TextEntity<String>>) -> (r: bool)
    ensures
        r == has_dynamic(entity_views(segs@)),
{
    let mut i: usize = 0;
    while i < segs.len()
        invariant
            i <= segs.len(),
            forall|j: int| 0 <= j < i ==> !(#[trigger] entity_views(segs@)[j] is Dynamic),
        decreases segs.len() - i,
    {
        match &segs[i] {
            TextEntity::Dynamic(_) => {
                assert(entity_views(segs@)[i as int] is Dynamic);
                return true;
            },
            TextEntity::Static(_) => {},
        }
        i = i + 1;
    }
    false
}

/// One piece as an operand of a concatenation.
fn piece_of(seg: TextEntity<String>, multi: bool) -> (r: Box<TmplExpr>)
    ensures
        r@ == piece_expr(seg@, multi),
{
    match seg {
        TextEntity::Static(s) => Box::new(TmplExpr::LitStr(s)),
        TextEntity::Dynamic(expr) => {
            if multi {
                Box::new(TmplExpr::ToStringWithoutUndefined(expr))
            } else {
                expr
            }
        },
    }
}

/// The literal of a string.
fn lit_str(s: String) -> (r: Box<TmplExpr>)
    ensures
        r@ == ExprView::LitStr(s@),
{
    Box::new(TmplExpr::LitStr(s))
}

/// The sum of two expressions.
fn plus(x: Box<TmplExpr>, y: Box<TmplExpr>) -> (r: Box<TmplExpr>)
    ensures
        r@ == ExprView::Binary(BinaryOp::Plus, Box::new(x@), Box::new(y@)),
{
    Box::new(TmplExpr::Plus(x, y))
}

/// The concatenation `cur` with one more piece.
fn append_to(cur: Box<TmplExpr>, seg: TextEntity<String>, multi: bool) -> (r: Box<TmplExpr>)
    ensures
        r@ == append_piece(cur@, seg@, multi),
{
    let ghost cv = cur@;
    match seg {
        TextEntity::Static(dest) => {
            match *cur {
                TmplExpr::Plus(l, r) => {
                    let ghost rv = r@;
                    assert(cv == ExprView::Binary(BinaryOp::Plus, Box::new(l@), Box::new(rv)));
                    match *r {
                        TmplExpr::LitStr(src) => {
                            assert(rv == ExprView::LitStr(src@));
                            let mut joined = src;
                            joined.append(dest.as_str());
                            plus(l, lit_str(joined))
                        },
                        other => {
                            assert(other@ == rv);
                            assert(!(rv is LitStr));
                            plus(plus(l, Box::new(other)), lit_str(dest))
                        },
                    }
                },
                TmplExpr::LitStr(src) => {
                    let mut joined = src;
                    joined.append(dest.as_str());
                    lit_str(joined)
                },
                other => {
                    assert(other@ == cv);
                    assert(!(cv is LitStr));
                    assert(!(cv matches ExprView::Binary(op, _, _) && op == BinaryOp::Plus));
                    plus(Box::new(other), lit_str(dest))
                },
            }
        },
        TextEntity::Dynamic(expr) => {
            let next = piece_of(TextEntity::Dynamic(expr), multi);
            plus(cur, next)
        },
    }
}

/// Joins the pieces of a text. Where none of them is an expression, the
/// text is the characters of all of them; else it is the expression that
/// concatenates them, with static text that follows static text joined to
/// it.
pub fn merge_text_entities(segs: Vec<TextEntity<String>>) -> (r: TextEntity<String>)
    ensures
        r@ == merged(entity_views(segs@)),
{
    let ghost views = entity_views(segs@);
    let has_multi_segs = segs.len() > 1;
    if any_dynamic(&segs) {
        let mut cur: Option<Box<TmplExpr>> = None;
        for seg in it: segs
            invariant
                it.seq() == segs@,
                views == entity_views(segs@),
                has_multi_segs == (views.len() > 1),
                match cur {
                    None => it.index() == 0,
                    Some(c) => it.index() >= 1 && c@ == merged_expr(
                        views,
                        (it.index() - 1) as nat,
                    ),
                },
        {
            proof {
                assert(views[it.index() as int] == seg@);
            }
            cur = Some(
                match cur {
                    None => piece_of(seg, has_multi_segs),
                    Some(c) => append_to(c, seg, has_multi_segs),
                },
            );
        }
        match cur {
            Some(c) => TextEntity::Dynamic(c),
            None => {
                proof {
                    assert(!has_dynamic(views));
                }
                TextEntity::Static(String::new())
            },
        }
    } else {
        let mut s = String::new();
        let mut i: usize = 0;
        proof {
            assert(views.take(0) =~= Seq::<TextEntityView>::empty());
        }
        while i < segs.len()
            invariant
                i <= segs.len(),
                views == entity_views(segs@),
                s@ == static_text(views.take(i as int)),
            decreases segs.len() - i,
        {
            proof {
                assert(views.take(i + 1).drop_last() =~= views.take(i as int));
                assert(views.take(i + 1).last() == segs@[i as int]@);
            }
            match &segs[i] {
                TextEntity::Static(x) => {
                    s.append(x.as_str());
                },
                TextEntity::Dynamic(_) => {
                    proof {
                        assert(s@ + Seq::<char>::empty() =~= s@);
                    }
                },
            }
            i = i + 1;
        }
        proof {
            assert(views.take(i as int) =~= views);
        }
        TextEntity::Static(s)
    }
}

/// The value of a text: plain characters, or the expression that yields
/// the text.
pub fn parse_text_entity(pair: &ParsedPair) -> (r: TextEntity<String>)
    ensures
        r@ == text_entity(pair@),
{
    let mut segs: Vec<TextEntity<String>> = Vec::new();
    let ghost target = segments_of(pair@);
    let mut i: usize = 0;
    proof {
        assert(entity_views(segs@) =~= target.take(0));
    }
    while i < pair.inner.len()
        invariant
            i <= pair.inner.len(),
            target == segments_of(pair@),
            target.len() == pair.inner.len(),
            entity_views(segs@) == target.take(i as int),
        decreases pair.inner.len() - i,
    {
        let ghost before = entity_views(segs@);
        proof {
            assert(pair@.inner[i as int] == pair.inner@[i as int]@);
        }
        let seg = parse_segment_entity(&pair.inner[i]);
        let ghost sv = seg@;
        segs.push(seg);
        proof {
            assert(entity_views(segs@) =~= before.push(sv));
            assert(target.take(i + 1) =~= target.take(i as int).push(target[i as int]));
        }
        i = i + 1;
    }
    proof {
        assert(target.take(i as int) =~= target);
    }
    merge_text_entities(segs)
}

} // verus!
