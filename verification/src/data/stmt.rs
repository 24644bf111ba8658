//! The statement tree that the lowerer walks.

use crate::data::location::Locatable;
use vstd::prelude::*;

verus! {

/// A statement with its position.
pub type Stmt<E, D> = Locatable<StmtType<E, D>>;

/// The kinds of statement. `E` is what an expression is to whoever lowers
/// expressions, `D` what a declaration is to whoever installs declarations.
#[derive(Debug, PartialEq)]
pub enum StmtType<E, D> {
    Compound(Vec<Stmt<E, D>>),
    If(Locatable<E>, Box<Stmt<E, D>>, Option<Box<Stmt<E, D>>>),
    Do(Box<Stmt<E, D>>, Locatable<E>),
    While(Locatable<E>, Option<Box<Stmt<E, D>>>),
    For(
        Option<Box<Stmt<E, D>>>,
        Option<Box<Locatable<E>>>,
        Option<Box<Locatable<E>>>,
        Option<Box<Stmt<E, D>>>,
    ),
    Switch(Locatable<E>, Box<Stmt<E, D>>),
    Label(String, Option<Box<Stmt<E, D>>>),
    Case(u64, Option<Box<Stmt<E, D>>>),
    Default(Option<Box<Stmt<E, D>>>),
    Expr(Locatable<E>),
    Goto(String),
    Continue,
    Break,
    Return(Option<Locatable<E>>),
    Decl(Vec<Locatable<D>>),
}

impl<E, D> StmtType<E, D> {
    /// A statement that control can reach other than by falling into it.
    pub open spec fn spec_is_jump_target(&self) -> bool {
        self is Case || self is Default || self is Label
    }

    /// Whether this is a `case`, a `default` or a labelled statement.
    pub fn is_jump_target(&self) -> (r: bool)
        ensures
            r == self.spec_is_jump_target(),
    {
        match self {
            StmtType::Case(_, _) | StmtType::Default(_) | StmtType::Label(_, _) => true,
            _ => false,
        }
    }
}

/// The size of a statement: one more than the sizes of its parts, and for
/// `for` five more, which leaves room for the loop that it is rewritten to.
pub open spec fn weight<E, D>(stmt: Stmt<E, D>) -> nat
    decreases stmt,
{
    match stmt.data {
        StmtType::Compound(stmts) => 1 + weight_all(stmts@),
        StmtType::If(_, body, otherwise) => 2 + weight(*body) + weight_opt(otherwise),
        StmtType::Do(body, _) => 2 + weight(*body),
        StmtType::While(_, body) => 2 + weight_opt(body),
        StmtType::For(init, _, _, body) => 5 + weight_opt(init) + weight_opt(body),
        StmtType::Switch(_, body) => 2 + weight(*body),
        StmtType::Label(_, inner) => 1 + weight_opt(inner),
        StmtType::Case(_, inner) => 2 + weight_opt(inner),
        StmtType::Default(inner) => 2 + weight_opt(inner),
        _ => 1,
    }
}

/// The size of a statement that may be absent.
pub open spec fn weight_opt<E, D>(stmt: Option<Box<Stmt<E, D>>>) -> nat
    decreases stmt,
{
    match stmt {
        Some(inner) => weight(*inner),
        None => 0,
    }
}

/// The sizes of a sequence of statements, added up.
pub open spec fn weight_all<E, D>(stmts: Seq<Stmt<E, D>>) -> nat
    decreases stmts,
{
    if stmts.len() == 0 {
        0
    } else {
        weight_all(stmts.drop_last()) + weight(stmts.last())
    }
}

/// The size of a statement that may be absent.
pub open spec fn weight_maybe<E, D>(stmt: Option<Stmt<E, D>>) -> nat {
    match stmt {
        Some(inner) => weight(inner),
        None => 0,
    }
}

/// Every statement has a size.
pub proof fn lemma_weight_positive<E, D>(stmt: Stmt<E, D>)
    ensures
        weight(stmt) >= 1,
{
}

/// No statement of a sequence is larger than the sequence.
pub proof fn lemma_weight_of_member<E, D>(stmts: Seq<Stmt<E, D>>, i: int)
    requires
        0 <= i < stmts.len(),
    ensures
        weight(stmts[i]) <= weight_all(stmts),
    decreases stmts.len(),
{
    if i < stmts.len() - 1 {
        lemma_weight_of_member(stmts.drop_last(), i);
    }
}

/// A sequence with one more statement at its end is larger by that
/// statement.
pub proof fn lemma_weight_of_push<E, D>(stmts: Seq<Stmt<E, D>>, last: Stmt<E, D>)
    ensures
        weight_all(stmts.push(last)) == weight_all(stmts) + weight(last),
{
    assert(stmts.push(last).drop_last() =~= stmts);
}

} // verus!
