//! The syntax tree of a piece of template text, as the reading of the text
//! yields it: every node has the rule that matched, the text that it
//! matched, and the nodes of the rules that matched inside it.

use vstd::prelude::*;

verus! {

/// The rules of the grammar of texts and expressions.
#[derive(Debug, Clone, Copy, PartialEq, Eq, Structural)]
pub enum Rule {
    Main,
    Segment,
    Tag,
    TagBegin,
    TagEnd,
    SelfClose,
    WxsScriptTagBegin,
    WxsScriptTag,
    WxsScriptBody,
    Attr,
    TextNode,
    TextEntity,
    Entity,
    PureText,
    ExprOrObj,
    ObjBody,
    Spread,
    Cond,
    OrExpr,
    Or,
    AndExpr,
    And,
    BitOrExpr,
    BitOr,
    BitXorExpr,
    BitXor,
    BitAndExpr,
    BitAnd,
    Equal,
    Eq,
    Ne,
    EqFull,
    NeFull,
    Comparison,
    Lt,
    Gt,
    Lte,
    Gte,
    PlusMinus,
    Plus,
    Minus,
    MultiDiv,
    Multi,
    Div,
    Rem,
    Unary,
    Reverse,
    BitReverse,
    Positive,
    Negative,
    Member,
    StaticMember,
    DynamicMember,
    FuncCall,
    Value,
    LitStr,
    LitStrQ,
    LitStrSq,
    LitStrEscaped,
    LitNumber,
    LitNumberHex,
    LitNumberOct,
    LitNumberDec,
    LitNumberFloat,
    LitNumberE,
    LitObj,
    LitObjItem,
    LitArr,
    Ident,
    /// Any rule that no decision depends on.
    Other,
}

/// One node of a syntax tree.
#[derive(Debug, PartialEq)]
pub struct ParsedPair {
    pub rule: Rule,
    pub text: String,
    /// Line and column at which the text begins.
    pub start_pos: (usize, usize),
    /// Line and column at which it ends.
    pub end_pos: (usize, usize),
    pub inner: Vec<ParsedPair>,
}

/// The mathematical content of a [`ParsedPair`].
pub struct PairView {
    pub rule: Rule,
    pub text: Seq<char>,
    pub start_pos: (usize, usize),
    pub end_pos: (usize, usize),
    pub inner: Seq<PairView>,
}

/// The views of a list of nodes.
pub open spec fn syntax_views(v: Seq<ParsedPair>) -> Seq<PairView>
    decreases v,
{
    Seq::new(
        v.len(),
        |i: int|
            if 0 <= i < v.len() {
                v[i].model()
            } else {
                arbitrary()
            },
    )
}

impl ParsedPair {
    /// The node as a mathematical value.
    pub open spec fn model(self) -> PairView
        decreases self,
    {
        PairView {
            rule: self.rule,
            text: self.text@,
            start_pos: self.start_pos,
            end_pos: self.end_pos,
            inner: syntax_views(self.inner@),
        }
    }

    /// A node without nodes inside and without a place.
    pub fn leaf(rule: Rule, text: &str) -> (r: Self)
        ensures
            r@ == (PairView {
                rule,
                text: text@,
                start_pos: (0, 0),
                end_pos: (0, 0),
                inner: Seq::empty(),
            }),
    {
        let r = ParsedPair {
            rule,
            text: text.to_owned(),
            start_pos: (0, 0),
            end_pos: (0, 0),
            inner: Vec::new(),
        };
        proof {
            assert(syntax_views(r.inner@) =~= Seq::empty());
        }
        r
    }
}

impl View for ParsedPair {
    type V = PairView;

    open spec fn view(&self) -> PairView {
        self.model()
    }
}

} // verus!
