//! The generic parse tree that the tree builder consumes.
//!
//! An external grammar engine turns source text into a tree of nodes, each
//! tagged by the grammar rule it matched, carrying the matched text and its
//! child nodes in source order.  The builder only dispatches on the finite
//! set of rule tags below; nodes whose tag it never inspects (keywords,
//! wrappers, quotes) are tagged `Aux`.

use vstd::prelude::*;

verus! {

/// The grammar rules the tree builder dispatches on.
#[derive(Clone, Copy, Debug, PartialEq, Eq, Structural)]
pub enum Rule {
    /// Any node whose tag the builder never inspects (keywords, wrappers).
    Aux,
    BreakKeyword,
    Statement,
    VariableStatement,
    IfStatement,
    PrintStatement,
    ExpressionStatement,
    WhileStatement,
    Expression,
    IfExpression,
    BinaryNumExpression,
    BooleanOperation,
    BooleanExpression,
    Rvalue,
    InputExpression,
    ParentExpression,
    Plus,
    Minus,
    Mul,
    Div,
    ModOp,
    Pow,
    SmallerThan,
    SmallerEquals,
    Equals,
    GreaterEquals,
    GreaterThan,
    And,
    Or,
    BooleanLiteral,
    TrueLiteral,
    FalseLiteral,
    StringLiteral,
    VariableName,
    NumericLiteral,
    LetName,
    StringType,
    NumberType,
    BoolType,
}

/// The language's marker type.  The concrete syntax belongs to an external
/// grammar engine that parses source text into rule-tagged nodes; the
/// library consumes that tree through `ParseNode`, and this type names the
/// language those nodes belong to.
pub struct UBPP;

/// One node of the parse tree: a rule tag, the matched text, and the
/// child nodes in source order.
pub struct ParseNode {
    pub rule: Rule,
    pub text: String,
    pub children: Vec<ParseNode>,
}

/// The mathematical model of a parse node.
pub struct NodeV {
    pub rule: Rule,
    pub text: Seq<char>,
    pub children: Seq<NodeV>,
}

pub open spec fn node_v(n: ParseNode) -> NodeV
    decreases n,
{
    NodeV { rule: n.rule, text: n.text@, children: nodes_v(n.children@) }
}

pub open spec fn nodes_v(ns: Seq<ParseNode>) -> Seq<NodeV>
    decreases ns,
{
    if ns.len() == 0 {
        Seq::empty()
    } else {
        seq![node_v(ns[0])] + nodes_v(ns.drop_first())
    }
}

pub broadcast proof fn lemma_nodes_v_len(ns: Seq<ParseNode>)
    ensures
        #[trigger] nodes_v(ns).len() == ns.len(),
    decreases ns,
{
    if ns.len() > 0 {
        lemma_nodes_v_len(ns.drop_first());
    }
}

pub broadcast proof fn lemma_nodes_v_index(ns: Seq<ParseNode>, i: int)
    requires
        0 <= i < ns.len(),
    ensures
        nodes_v(ns).len() == ns.len(),
        #[trigger] nodes_v(ns)[i] == node_v(ns[i]),
    decreases ns,
{
    lemma_nodes_v_len(ns);
    if i > 0 {
        lemma_nodes_v_index(ns.drop_first(), i - 1);
    }
}

} // verus!
