//! The abstract syntax: expression trees, boolean conditions, statements and
//! the top-level program record, together with their mathematical values.
//!
//! Nodes are built bottom-up during parsing, are never mutated afterwards,
//! and own their children outright, so the trees are strict trees.

use vstd::prelude::*;

verus! {

broadcast use vstd::std_specs::vec::axiom_vec_index_decreases;

/// An arithmetic expression node.
#[derive(Debug, PartialEq)]
pub enum ASTNode {
    Number(String),
    Identifier(String),
    Multiply(Box<ASTNode>, Box<ASTNode>),
    Add(Box<ASTNode>, Box<ASTNode>),
    Sub(Box<ASTNode>, Box<ASTNode>),
}

/// A boolean condition: a literal, or exactly one comparison between two
/// expressions.  Chained comparisons are not representable.
#[derive(Debug, PartialEq)]
pub enum BooleanExpression {
    True,
    False,
    CompareLessThan(Box<ASTNode>, Box<ASTNode>),
    CompareLessThanEqualTo(Box<ASTNode>, Box<ASTNode>),
    CompareGreaterThan(Box<ASTNode>, Box<ASTNode>),
    CompareGreaterThanEqualTo(Box<ASTNode>, Box<ASTNode>),
    CompareEqualTo(Box<ASTNode>, Box<ASTNode>),
}

/// A statement; blocks are ordered statement sequences, nestable to any
/// depth.
#[derive(Debug, PartialEq)]
pub enum Statement {
    Assign { name: String, expression: Box<ASTNode> },
    If {
        condition: BooleanExpression,
        then_statements: Vec<Statement>,
        else_statements: Vec<Statement>,
    },
    While { condition: BooleanExpression, body: Vec<Statement> },
}

/// A whole source program: declared argument names, declared local-variable
/// names, top-level statements, and the name returned at the end.
#[derive(Debug, PartialEq)]
pub struct Program {
    pub arg_declarations: Vec<String>,
    pub var_declarations: Vec<String>,
    pub statements: Vec<Statement>,
    pub return_ident: String,
}

// ---------------------------------------------------------------------------
// Mathematical values
// ---------------------------------------------------------------------------
/// The value of an `ASTNode`.
pub enum Exp {
    Number(Seq<char>),
    Identifier(Seq<char>),
    Multiply(Box<Exp>, Box<Exp>),
    Add(Box<Exp>, Box<Exp>),
    Sub(Box<Exp>, Box<Exp>),
}

/// The value of a `BooleanExpression`.
pub enum BExp {
    True,
    False,
    CompareLessThan(Exp, Exp),
    CompareLessThanEqualTo(Exp, Exp),
    CompareGreaterThan(Exp, Exp),
    CompareGreaterThanEqualTo(Exp, Exp),
    CompareEqualTo(Exp, Exp),
}

/// The value of a `Statement`.
pub enum Stm {
    Assign { name: Seq<char>, expression: Exp },
    If { condition: BExp, then_statements: Seq<Stm>, else_statements: Seq<Stm> },
    While { condition: BExp, body: Seq<Stm> },
}

/// The value of a `Program`.
pub struct Prog {
    pub arg_declarations: Seq<Seq<char>>,
    pub var_declarations: Seq<Seq<char>>,
    pub statements: Seq<Stm>,
    pub return_ident: Seq<char>,
}

impl View for ASTNode {
    type V = Exp;

    open spec fn view(&self) -> Exp
        decreases self,
    {
        match self {
            ASTNode::Number(s) => Exp::Number(s@),
            ASTNode::Identifier(s) => Exp::Identifier(s@),
            ASTNode::Multiply(l, r) => Exp::Multiply(Box::new((**l)@), Box::new((**r)@)),
            ASTNode::Add(l, r) => Exp::Add(Box::new((**l)@), Box::new((**r)@)),
            ASTNode::Sub(l, r) => Exp::Sub(Box::new((**l)@), Box::new((**r)@)),
        }
    }
}

impl View for BooleanExpression {
    type V = BExp;

    open spec fn view(&self) -> BExp {
        match self {
            BooleanExpression::True => BExp::True,
            BooleanExpression::False => BExp::False,
            BooleanExpression::CompareLessThan(l, r) => BExp::CompareLessThan((**l)@, (**r)@),
            BooleanExpression::CompareLessThanEqualTo(l, r) => BExp::CompareLessThanEqualTo(
                (**l)@,
                (**r)@,
            ),
            BooleanExpression::CompareGreaterThan(l, r) => BExp::CompareGreaterThan(
                (**l)@,
                (**r)@,
            ),
            BooleanExpression::CompareGreaterThanEqualTo(l, r) => BExp::CompareGreaterThanEqualTo(
                (**l)@,
                (**r)@,
            ),
            BooleanExpression::CompareEqualTo(l, r) => BExp::CompareEqualTo((**l)@, (**r)@),
        }
    }
}

/// The value of a statement.
pub open spec fn stm_view(s: Statement) -> Stm
    decreases s, 0int,
{
    match s {
        Statement::Assign { name, expression } => Stm::Assign {
            name: name@,
            expression: (*expression)@,
        },
        Statement::If { condition, then_statements, else_statements } => Stm::If {
            condition: condition@,
            then_statements: vec_stms_view(then_statements, 0),
            else_statements: vec_stms_view(else_statements, 0),
        },
        Statement::While { condition, body } => Stm::While {
            condition: condition@,
            body: vec_stms_view(body, 0),
        },
    }
}

/// The values of the statements of `v` from index `i` on.
pub open spec fn vec_stms_view(v: Vec<Statement>, i: int) -> Seq<Stm>
    decreases v, v@.len() - i,
{
    if i < 0 || i >= v@.len() {
        Seq::empty()
    } else {
        seq![stm_view(v[i])] + vec_stms_view(v, i + 1)
    }
}

impl View for Statement {
    type V = Stm;

    open spec fn view(&self) -> Stm {
        stm_view(*self)
    }
}

/// The values of a statement list.
pub open spec fn stms_view(v: Vec<Statement>) -> Seq<Stm> {
    vec_stms_view(v, 0)
}

/// What `vec_stms_view` holds, element by element.
pub proof fn lemma_vec_stms_view(v: Vec<Statement>, i: int)
    requires
        0 <= i <= v@.len(),
    ensures
        vec_stms_view(v, i).len() == v@.len() - i,
        forall|j: int|
            0 <= j < v@.len() - i ==> #[trigger] vec_stms_view(v, i)[j] == stm_view(v@[i + j]),
    decreases v@.len() - i,
{
    if i < v@.len() {
        lemma_vec_stms_view(v, i + 1);
    }
}

/// The values of a name list.
pub open spec fn names_view(v: Seq<String>) -> Seq<Seq<char>> {
    v.map_values(|s: String| s@)
}

impl View for Program {
    type V = Prog;

    open spec fn view(&self) -> Prog {
        Prog {
            arg_declarations: names_view(self.arg_declarations@),
            var_declarations: names_view(self.var_declarations@),
            statements: stms_view(self.statements),
            return_ident: self.return_ident@,
        }
    }
}

} // verus!
