//! What lowering a statement means: for each kind of statement, the relation
//! between the state before and the state after, and the result.
//!
//! The relation follows the statement tree. Where the lowering passes
//! through states that the caller never sees, the relation says that such
//! states exist and how each step leads from one to the next. What the
//! sub-lowerer does is known only as far as the sub-lowerer promises it.

use crate::data::error::CompileError;
use crate::data::error::CompileResult;
use crate::data::error::Error;
use crate::data::error::SemanticError;
use crate::data::location::Locatable;
use crate::data::location::Location;
use crate::data::stmt::lemma_weight_positive;
use crate::data::stmt::Stmt;
use crate::data::stmt::StmtType;
use crate::data::stmt::weight;
use crate::data::stmt::weight_all;
use crate::data::stmt::weight_maybe;
use crate::data::stmt::weight_opt;
use crate::ir::builder::appended;
use crate::ir::builder::Block;
use crate::ir::builder::branch_edges;
use crate::ir::builder::current_block;
use crate::ir::builder::defined_values;
use crate::ir::builder::edge_added;
use crate::ir::builder::emitted;
use crate::ir::builder::filled_now;
use crate::ir::builder::moved;
use crate::ir::builder::nothing_noted;
use crate::ir::builder::pristine_now;
use crate::ir::builder::return_added;
use crate::ir::builder::switch_entries;
use crate::ir::builder::terminated;
use crate::ir::builder::Value;
use crate::ir::Compiler;
use crate::ir::graph::branched_on;
use crate::ir::graph::forked;
use crate::ir::graph::grows;
use crate::ir::graph::jumped;
use crate::ir::graph::loop_entered;
use crate::ir::graph::ran_into;
use crate::ir::graph::ready;
use crate::ir::graph::switch_entered;
use crate::ir::SubLowerer;
use cranelift::frontend::FunctionBuilder;
use vstd::prelude::*;

verus! {

/// `r` is a semantic error at `location` that carries only the text
/// `message`.
pub open spec fn fails_with_message(
    r: CompileResult<()>,
    location: Location,
    message: Seq<char>,
) -> bool {
    match r {
        Err(e) => e.location == location && match e.data {
            Error::Semantic(SemanticError::Generic(m)) => m@ == message,
            _ => false,
        },
        Ok(_) => false,
    }
}

/// The message of the error for a `break` or `continue` that has nowhere
/// to go.
pub open spec fn stray_exit_message(last_saw_loop: bool, is_break: bool) -> Seq<char> {
    if !last_saw_loop {
        "'continue' not in loop"@
    } else if is_break {
        "'break' statement not in loop or switch statement"@
    } else {
        "'continue' statement not in loop or switch statement"@
    }
}

/// Marks the values that a statement of existence is about: it holds of
/// every value, and serves to find the values again.
pub open spec fn chosen<T>(witness: T) -> bool {
    true
}

/// `r` is the body of the `while` that `for (..; ..; post_loop) body` at
/// `location` is lowered as: `body` with the statement `post_loop;` after
/// it. A compound body takes the statement as its last, any other body is
/// put into a compound with it, and without a body the statement is the
/// body. The statement, and a compound made to hold it, stand at `location`.
pub open spec fn is_for_body<E, D>(
    r: Option<Stmt<E, D>>,
    post_loop: Option<Locatable<E>>,
    body: Option<Box<Stmt<E, D>>>,
    location: Location,
) -> bool {
    match post_loop {
        Some(post_loop) => {
            let post_loop = Locatable { data: StmtType::Expr(post_loop), location };
            match body {
                Some(body) => match r {
                    Some(Locatable { data: StmtType::Compound(all), location: at }) => {
                        if body.data is Compound {
                            at == body.location && all@ == body.data->Compound_0@.push(post_loop)
                        } else {
                            at == location && all@ == seq![*body, post_loop]
                        }
                    },
                    _ => false,
                },
                None => r == Some(post_loop),
            }
        },
        None => r == match body {
            Some(body) => Some(*body),
            None => None,
        },
    }
}

impl<L: SubLowerer> Compiler<L> {
    /// The statement `stmt` cannot be reached in the state `b0`: the
    /// current block is terminated and nothing jumps to the statement.
    pub open spec fn rejects(b0: FunctionBuilder, stmt: Stmt<L::Expr, L::Decl>) -> bool {
        filled_now(b0) && !stmt.data.spec_is_jump_target()
    }

    /// Lowering stopped in the state `(at, b)` with an error.
    pub open spec fn stopped(
        at: Self,
        b: FunctionBuilder,
        later: Self,
        b1: FunctionBuilder,
        r: CompileResult<()>,
    ) -> bool {
        r is Err && later == at && b1 == b
    }

    /// What lowering the expression `expr` in an open block does: what
    /// the sub-lowerer says of itself, and what it owes its caller. It leaves
    /// the lowerer's state alone but for itself and the collector, which
    /// keeps what it had; it leaves a builder that has grown and is on a block
    /// that can take further instructions; and a value that it returns is
    /// defined.
    pub open spec fn evaluated(
        self,
        expr: Locatable<L::Expr>,
        b0: FunctionBuilder,
        later: Self,
        b1: FunctionBuilder,
        value: CompileResult<Value>,
    ) -> bool {
        &&& self.sub.expr_lowered(
            expr,
            b0,
            self.error_handler,
            later.sub,
            b1,
            later.error_handler,
            value,
        )
        &&& later.last_saw_loop == self.last_saw_loop
        &&& later.loops == self.loops
        &&& later.switches == self.switches
        &&& later.labels == self.labels
        &&& self.error_handler.kept_by(later.error_handler)
        &&& ready(b1)
        &&& !filled_now(b1)
        &&& grows(b0, b1)
        &&& value matches Ok(v) ==> defined_values(b1).contains(v.0)
    }

    /// What installing the declaration `decl` in an open block does: what
    /// the sub-lowerer says of itself, and what it owes its caller, as for an
    /// expression.
    pub open spec fn installed(
        self,
        decl: Locatable<L::Decl>,
        b0: FunctionBuilder,
        later: Self,
        b1: FunctionBuilder,
        r: CompileResult<()>,
    ) -> bool {
        &&& self.sub.stack_declared(
            decl.data,
            decl.location,
            b0,
            self.error_handler,
            later.sub,
            b1,
            later.error_handler,
            r,
        )
        &&& later.last_saw_loop == self.last_saw_loop
        &&& later.loops == self.loops
        &&& later.switches == self.switches
        &&& later.labels == self.labels
        &&& self.error_handler.kept_by(later.error_handler)
        &&& ready(b1)
        &&& !filled_now(b1)
        &&& grows(b0, b1)
    }

    /// What an expression statement does in an open block: the expression
    /// is lowered, and its value dropped.
    pub open spec fn expressed(
        self,
        expr: Locatable<L::Expr>,
        b0: FunctionBuilder,
        later: Self,
        bf: FunctionBuilder,
        r: CompileResult<()>,
    ) -> bool {
        exists|value: CompileResult<Value>| #[trigger]
            self.evaluated(expr, b0, later, bf, value) && match value {
                Ok(_) => r is Ok,
                Err(e) => r == Err::<(), CompileError>(e),
            }
    }

    /// `later` differs from this state in the loop stack and the loop flag
    /// at most.
    pub open spec fn same_but_loops(self, later: Self) -> bool {
        &&& later.sub == self.sub
        &&& later.switches == self.switches
        &&& later.labels == self.labels
        &&& later.error_handler == self.error_handler
    }

    /// `later` is this state after it entered the loop `(body, end)`.
    pub open spec fn entered(self, later: Self, body: Block, end: Block) -> bool {
        &&& later.loops@ == self.loops@.push((body, end))
        &&& later.last_saw_loop
        &&& self.same_but_loops(later)
    }

    /// `later` is this state after it left its innermost loop, for a
    /// construct whose loop flag was `old_saw_loop`.
    pub open spec fn exited(self, later: Self, old_saw_loop: bool) -> bool {
        &&& later.loops@ == if self.loops@.len() > 0 {
            self.loops@.drop_last()
        } else {
            self.loops@
        }
        &&& later.last_saw_loop == old_saw_loop
        &&& self.same_but_loops(later)
    }

    /// `later` differs from this state in the `switch` stack and the loop
    /// flag at most.
    pub open spec fn same_but_switches(self, later: Self) -> bool {
        &&& later.sub == self.sub
        &&& later.loops == self.loops
        &&& later.labels == self.labels
        &&& later.error_handler == self.error_handler
    }

    /// `later` is this state after it entered a `switch` that ends in
    /// `end`: the new innermost context has no entry and no default.
    pub open spec fn entered_switch(self, later: Self, end: Block) -> bool {
        &&& later.switches@.len() == self.switches@.len() + 1
        &&& later.switches@.drop_last() == self.switches@
        &&& later.switches@.last().end == end
        &&& later.switches@.last().default is None
        &&& switch_entries(later.switches@.last().table) == Map::<u64, u32>::empty()
        &&& !later.last_saw_loop
        &&& self.same_but_switches(later)
    }

    /// `later` is this state after it left its innermost `switch`, for a
    /// construct whose loop flag was `old_saw_loop`.
    pub open spec fn left_switch(self, later: Self, old_saw_loop: bool) -> bool {
        &&& self.switches@.len() > 0
        &&& later.switches@ == self.switches@.drop_last()
        &&& later.last_saw_loop == old_saw_loop
        &&& self.same_but_switches(later)
    }

    /// `later` differs from this state in what its innermost `switch` has
    /// gathered at most; the context ends where it ended.
    pub open spec fn same_but_switch(self, later: Self) -> bool {
        &&& later.sub == self.sub
        &&& later.last_saw_loop == self.last_saw_loop
        &&& later.loops == self.loops
        &&& later.labels == self.labels
        &&& later.error_handler == self.error_handler
        &&& later.switches@.len() == self.switches@.len()
        &&& later.switches@.drop_last() == self.switches@.drop_last()
        &&& later.switches@.last().end == self.switches@.last().end
    }

    /// Where `break` (or `continue`) goes from here, if anywhere: in a
    /// loop to the loop's end (or start), in a `switch` only `break`, to the
    /// end of the `switch`.
    pub open spec fn exit_target(self, is_break: bool) -> Option<Block> {
        if self.last_saw_loop {
            if self.loops@.len() > 0 {
                Some(
                    if is_break {
                        self.loops@.last().1
                    } else {
                        self.loops@.last().0
                    },
                )
            } else {
                None
            }
        } else if is_break && self.switches@.len() > 0 {
            Some(self.switches@.last().end)
        } else {
            None
        }
    }

    /// What `break` (`is_break`) or `continue` at `location` does in an
    /// open block: a jump to where `exit_target` says, or an error if it says
    /// nowhere. The lowerer's state stays as it is.
    pub open spec fn left_by_exit(
        self,
        is_break: bool,
        location: Location,
        b0: FunctionBuilder,
        later: Self,
        b1: FunctionBuilder,
        r: CompileResult<()>,
    ) -> bool {
        &&& later == self
        &&& match self.exit_target(is_break) {
            Some(target) => {
                &&& r is Ok
                &&& terminated(b0, b1)
                &&& edge_added(b0, b1, target.0)
                &&& nothing_noted(b0, b1)
            },
            None => b1 == b0 && fails_with_message(
                r,
                location,
                stray_exit_message(self.last_saw_loop, is_break),
            ),
        }
    }

    /// What `goto name` at `location` does in an open block: a jump to the
    /// block of the label, or an error if there is no such label. The
    /// lowerer's state stays as it is.
    pub open spec fn went_to(
        self,
        name: String,
        location: Location,
        b0: FunctionBuilder,
        later: Self,
        b1: FunctionBuilder,
        r: CompileResult<()>,
    ) -> bool {
        &&& later == self
        &&& if self.labels@.contains_key(name@) {
            &&& r is Ok
            &&& terminated(b0, b1)
            &&& edge_added(b0, b1, self.labels@[name@].0)
            &&& nothing_noted(b0, b1)
        } else {
            b1 == b0 && r == Err::<(), CompileError>(
                location.spec_error(SemanticError::UndeclaredLabel(name)),
            )
        }
    }

    /// What `return expr` does in an open block: the expression is
    /// lowered, which leads to `(s1, b1)` with the result `value`; a failure
    /// stops there, and else the block is terminated by a return of the
    /// value.
    pub open spec fn returned_via(
        self,
        expr: Locatable<L::Expr>,
        b0: FunctionBuilder,
        s1: Self,
        b1: FunctionBuilder,
        value: CompileResult<Value>,
        later: Self,
        bf: FunctionBuilder,
        r: CompileResult<()>,
    ) -> bool {
        &&& self.evaluated(expr, b0, s1, b1, value)
        &&& later == s1
        &&& match value {
            Err(e) => r == Err::<(), CompileError>(e) && bf == b1,
            Ok(v) => {
                &&& r is Ok
                &&& terminated(b1, bf)
                &&& branch_edges(bf) == branch_edges(b1)
                &&& return_added(b1, bf, seq![v])
            },
        }
    }

    /// What `return` does in an open block.
    pub open spec fn returned(
        self,
        expr: Option<Locatable<L::Expr>>,
        b0: FunctionBuilder,
        later: Self,
        bf: FunctionBuilder,
        r: CompileResult<()>,
    ) -> bool {
        match expr {
            Some(expr) => exists|s1: Self, b1: FunctionBuilder, value: CompileResult<Value>| #[trigger]
                self.returned_via(expr, b0, s1, b1, value, later, bf, r),
            None => {
                &&& r is Ok
                &&& later == self
                &&& terminated(b0, bf)
                &&& branch_edges(bf) == branch_edges(b0)
                &&& return_added(b0, bf, Seq::<Value>::empty())
            },
        }
    }

    /// What the declarations `decls` do in an open block: each but the
    /// last is installed, which leads to `(s1, b1)` with the result `r1`; a
    /// failure stops there, and else the last is installed.
    pub open spec fn declared_via(
        self,
        decls: Seq<Locatable<L::Decl>>,
        b0: FunctionBuilder,
        s1: Self,
        b1: FunctionBuilder,
        r1: CompileResult<()>,
        later: Self,
        bf: FunctionBuilder,
        r: CompileResult<()>,
    ) -> bool
        decreases decls.len(), 0nat,
    {
        decls.len() > 0 && {
            &&& self.declared(decls.drop_last(), b0, s1, b1, r1)
            &&& if r1 is Err {
                r == r1 && later == s1 && bf == b1
            } else {
                s1.installed(decls.last(), b1, later, bf, r)
            }
        }
    }

    /// What the declarations `decls` do in an open block: nothing if there
    /// is none, and else each is installed where the one before it led, up to
    /// the first that fails.
    pub open spec fn declared(
        self,
        decls: Seq<Locatable<L::Decl>>,
        b0: FunctionBuilder,
        later: Self,
        bf: FunctionBuilder,
        r: CompileResult<()>,
    ) -> bool
        decreases decls.len(), 1nat,
    {
        if decls.len() == 0 {
            r is Ok && later == self && bf == b0
        } else {
            exists|s1: Self, b1: FunctionBuilder, r1: CompileResult<()>| #[trigger]
                chosen((s1, b1, r1)) && self.declared_via(decls, b0, s1, b1, r1, later, bf, r)
        }
    }

    /// What the label `name` at `location` does. The current block runs
    /// into a new block, which the name stands for from now on; that leads to
    /// `(s1, b1)`. A name that was a label already is reported to the
    /// collector, and what it labels is not lowered. Else what it labels is
    /// lowered next.
    pub open spec fn labelled_via(
        self,
        name: String,
        inner: Option<Box<Stmt<L::Expr, L::Decl>>>,
        location: Location,
        b0: FunctionBuilder,
        s1: Self,
        b1: FunctionBuilder,
        later: Self,
        bf: FunctionBuilder,
        r: CompileResult<()>,
    ) -> bool
        decreases weight_opt(inner), 1nat,
    {
        &&& s1.labels@.contains_key(name@)
        &&& ran_into(b0, b1, s1.labels@[name@].0)
        &&& s1.labels@ == self.labels@.insert(name@, s1.labels@[name@])
        &&& s1.sub == self.sub
        &&& s1.loops == self.loops
        &&& s1.switches == self.switches
        &&& s1.last_saw_loop == self.last_saw_loop
        &&& s1.error_handler.warnings == self.error_handler.warnings
        &&& s1.error_handler.errors@ == if self.labels@.contains_key(name@) {
            self.error_handler.errors@.push(
                location.spec_error(SemanticError::LabelRedeclaration(self.labels@[name@])),
            )
        } else {
            self.error_handler.errors@
        }
        &&& match inner {
            Some(inner) if !self.labels@.contains_key(name@) => s1.compiled(
                *inner,
                b1,
                later,
                bf,
                r,
            ),
            _ => r is Ok && later == s1 && bf == b1,
        }
    }

    /// What the label `name` at `location` does.
    pub open spec fn labelled(
        self,
        name: String,
        inner: Option<Box<Stmt<L::Expr, L::Decl>>>,
        location: Location,
        b0: FunctionBuilder,
        later: Self,
        bf: FunctionBuilder,
        r: CompileResult<()>,
    ) -> bool
        decreases weight_opt(inner), 2nat,
    {
        exists|s1: Self, b1: FunctionBuilder| #[trigger]
            chosen((s1, b1)) && self.labelled_via(name, inner, location, b0, s1, b1, later, bf, r)
    }

    /// What `case constexpr:` does in a `switch` that has no entry for the
    /// constant. The constant is entered for `target`, which is the current
    /// block if that is still empty, and a new block that the current block
    /// runs into if not; that leads to `(s1, b1)`. A statement under the
    /// `case` is lowered next.
    pub open spec fn cased_via(
        self,
        constexpr: u64,
        inner: Option<Box<Stmt<L::Expr, L::Decl>>>,
        b0: FunctionBuilder,
        target: u32,
        s1: Self,
        b1: FunctionBuilder,
        later: Self,
        bf: FunctionBuilder,
        r: CompileResult<()>,
    ) -> bool
        decreases 1 + weight_opt(inner), 1nat,
    {
        &&& self.same_but_switch(s1)
        &&& s1.switches@.last().default == self.switches@.last().default
        &&& switch_entries(s1.switches@.last().table) == switch_entries(
            self.switches@.last().table,
        ).insert(constexpr, target)
        &&& if pristine_now(b0) {
            &&& Some(target) == current_block(b0)
            &&& appended(b0, b1)
            &&& branch_edges(b1) == branch_edges(b0)
            &&& nothing_noted(b0, b1)
        } else {
            ran_into(b0, b1, target)
        }
        &&& match inner {
            Some(inner) => s1.compiled(*inner, b1, later, bf, r),
            None => r is Ok && later == s1 && bf == b1,
        }
    }

    /// What `case constexpr:` at `location` does. Outside a `switch`, or
    /// for a constant that the innermost `switch` has already, it is an
    /// error and changes nothing.
    pub open spec fn cased(
        self,
        constexpr: u64,
        inner: Option<Box<Stmt<L::Expr, L::Decl>>>,
        location: Location,
        b0: FunctionBuilder,
        later: Self,
        bf: FunctionBuilder,
        r: CompileResult<()>,
    ) -> bool
        decreases 1 + weight_opt(inner), 2nat,
    {
        if self.switches@.len() == 0 {
            &&& r == Err::<(), CompileError>(
                location.spec_error(SemanticError::CaseOutsideSwitch { is_default: false }),
            )
            &&& later == self
            &&& bf == b0
        } else if switch_entries(self.switches@.last().table).contains_key(constexpr) {
            &&& r == Err::<(), CompileError>(
                location.spec_error(SemanticError::DuplicateCase { is_default: false }),
            )
            &&& later == self
            &&& bf == b0
        } else {
            exists|target: u32, s1: Self, b1: FunctionBuilder| #[trigger]
                chosen((target, s1, b1)) && self.cased_via(constexpr, inner, b0, target, s1, b1, later, bf, r)
        }
    }

    /// What `default:` does in a `switch` that has no default. The default
    /// is `target`, which is the current block if that is still empty, and a
    /// new block that the current block runs into if not; that leads to
    /// `(s1, b1)`. A statement under the `default` is lowered next.
    pub open spec fn defaulted_via(
        self,
        inner: Option<Box<Stmt<L::Expr, L::Decl>>>,
        b0: FunctionBuilder,
        target: u32,
        s1: Self,
        b1: FunctionBuilder,
        later: Self,
        bf: FunctionBuilder,
        r: CompileResult<()>,
    ) -> bool
        decreases 1 + weight_opt(inner), 1nat,
    {
        &&& self.same_but_switch(s1)
        &&& s1.switches@.last().default == Some(Block(target))
        &&& switch_entries(s1.switches@.last().table) == switch_entries(
            self.switches@.last().table,
        )
        &&& if pristine_now(b0) {
            &&& Some(target) == current_block(b0)
            &&& appended(b0, b1)
            &&& branch_edges(b1) == branch_edges(b0)
            &&& nothing_noted(b0, b1)
        } else {
            ran_into(b0, b1, target)
        }
        &&& match inner {
            Some(inner) => s1.compiled(*inner, b1, later, bf, r),
            None => r is Ok && later == s1 && bf == b1,
        }
    }

    /// What `default:` at `location` does. Outside a `switch`, or in a
    /// `switch` that has its default already, it is an error and changes
    /// nothing.
    pub open spec fn defaulted(
        self,
        inner: Option<Box<Stmt<L::Expr, L::Decl>>>,
        location: Location,
        b0: FunctionBuilder,
        later: Self,
        bf: FunctionBuilder,
        r: CompileResult<()>,
    ) -> bool
        decreases 1 + weight_opt(inner), 2nat,
    {
        if self.switches@.len() == 0 {
            &&& r == Err::<(), CompileError>(
                location.spec_error(SemanticError::CaseOutsideSwitch { is_default: true }),
            )
            &&& later == self
            &&& bf == b0
        } else if self.switches@.last().default is Some {
            &&& r == Err::<(), CompileError>(
                location.spec_error(SemanticError::DuplicateCase { is_default: true }),
            )
            &&& later == self
            &&& bf == b0
        } else {
            exists|target: u32, s1: Self, b1: FunctionBuilder| #[trigger]
                chosen((target, s1, b1)) && self.defaulted_via(inner, b0, target, s1, b1, later, bf, r)
        }
    }

    /// Where an `if` goes on after both branches were lowered, the first
    /// up to `b_then` and the second up to `b_else`: in `end`, unless both
    /// branches terminated. A second branch that did not terminate jumps to
    /// `end`.
    pub open spec fn joined(
        b_then: FunctionBuilder,
        b_else: FunctionBuilder,
        bf: FunctionBuilder,
        end: Block,
    ) -> bool {
        if !filled_now(b_else) {
            exists|b: FunctionBuilder|
                jumped(b_else, b, end) && #[trigger] moved(b, bf) && current_block(bf) == Some(
                    end.0,
                )
        } else if !filled_now(b_then) {
            moved(b_else, bf) && current_block(bf) == Some(end.0)
        } else {
            bf == b_else
        }
    }

    /// What `if (condition) body else otherwise` does in an open block.
    ///
    /// The condition is lowered, which leads to `(s1, b1)` with the result
    /// `value`; a failure stops there. Blocks are made for `body`, for what follows the `if` (`end`)
    /// and, if there is one, for `otherwise`. The current block branches on
    /// zero to the block of `otherwise`, or to `end` if there is none, and
    /// jumps to the block of `body`: that is `b2`. The body is lowered,
    /// which leads to `(s2, b3)` with the result `r_then`; a failure stops
    /// there. Unless terminated, the body jumps to `end`: that is `b4`.
    /// Without `otherwise`, lowering goes on in `end`. Else `otherwise` is
    /// lowered from its block, which is `b5`, and that leads to `(s3, b6)`
    /// with the result `r_else`; a failure stops there, and else the
    /// branches are joined.
    pub open spec fn branched_via(
        self,
        condition: Locatable<L::Expr>,
        body: Stmt<L::Expr, L::Decl>,
        otherwise: Option<Box<Stmt<L::Expr, L::Decl>>>,
        b0: FunctionBuilder,
        s1: Self,
        b1: FunctionBuilder,
        value: CompileResult<Value>,
        if_body: Block,
        end: Block,
        else_body: Block,
        b2: FunctionBuilder,
        s2: Self,
        b3: FunctionBuilder,
        r_then: CompileResult<()>,
        b4: FunctionBuilder,
        b5: FunctionBuilder,
        s3: Self,
        b6: FunctionBuilder,
        r_else: CompileResult<()>,
        later: Self,
        bf: FunctionBuilder,
        r: CompileResult<()>,
    ) -> bool
        decreases 1 + weight(body) + weight_opt(otherwise), 1nat,
    {
        &&& self.evaluated(condition, b0, s1, b1, value)
        &&& match value {
            Err(e) => r == Err::<(), CompileError>(e) && later == s1 && bf == b1,
            Ok(v) => {
                &&& if_body != end
                &&& match otherwise {
                    Some(_) => else_body != if_body && else_body != end && forked(
                        b1,
                        b2,
                        v.0,
                        if_body.0,
                        else_body.0,
                        set![if_body.0, end.0, else_body.0],
                    ),
                    None => forked(b1, b2, v.0, if_body.0, end.0, set![if_body.0, end.0]),
                }
                &&& s1.compiled(body, b2, s2, b3, r_then)
                &&& if r_then is Err {
                    r == r_then && later == s2 && bf == b3
                } else {
                    &&& jumped(b3, b4, end)
                    &&& match otherwise {
                        None => r is Ok && later == s2 && moved(b4, bf) && current_block(bf)
                            == Some(end.0),
                        Some(other) => {
                            &&& moved(b4, b5)
                            &&& current_block(b5) == Some(else_body.0)
                            &&& s2.compiled(*other, b5, s3, b6, r_else)
                            &&& later == s3
                            &&& if r_else is Err {
                                r == r_else && bf == b6
                            } else {
                                r is Ok && Self::joined(b3, b6, bf, end)
                            }
                        },
                    }
                }
            },
        }
    }

    /// What `if (condition) body else otherwise` does in an open block.
    pub open spec fn branched(
        self,
        condition: Locatable<L::Expr>,
        body: Stmt<L::Expr, L::Decl>,
        otherwise: Option<Box<Stmt<L::Expr, L::Decl>>>,
        b0: FunctionBuilder,
        later: Self,
        bf: FunctionBuilder,
        r: CompileResult<()>,
    ) -> bool
        decreases 1 + weight(body) + weight_opt(otherwise), 2nat,
    {
        exists|
            s1: Self,
            b1: FunctionBuilder,
            value: CompileResult<Value>,
            if_body: Block,
            end: Block,
            else_body: Block,
            b2: FunctionBuilder,
            s2: Self,
            b3: FunctionBuilder,
            r_then: CompileResult<()>,
            b4: FunctionBuilder,
            b5: FunctionBuilder,
            s3: Self,
            b6: FunctionBuilder,
            r_else: CompileResult<()>,
        | #[trigger]
            chosen(
                ((s1, b1, value, if_body, end, else_body, b2), (s2, b3, r_then, b4, b5), (s3, b6, r_else)),
            ) && self.branched_via(
                condition,
                body,
                otherwise,
                b0,
                s1,
                b1,
                value,
                if_body,
                end,
                else_body,
                b2,
                s2,
                b3,
                r_then,
                b4,
                b5,
                s3,
                b6,
                r_else,
                later,
                bf,
                r,
            )
    }

    /// What a loop that tests before its body does in an open block.
    ///
    /// The loop is entered: the current block jumps to the new block
    /// `start`, and the new block `end` is set aside; that is `(s1, b1)`. If
    /// the loop has a condition, it is lowered, which leads to `(s2, b2)`; a
    /// failure leaves the loop and stops there. The block branches on zero to
    /// `end` and falls through into a new block: that is `b3`. The body, if
    /// there is one, is lowered, which leads to `(s3, b4)` with the result
    /// `r_body`; a failure leaves the loop and stops there. Unless
    /// terminated, the body jumps back to `start`: that is `b5`. The loop is
    /// left, and lowering goes on in `end`.
    pub open spec fn looped_via(
        self,
        maybe_condition: Option<Locatable<L::Expr>>,
        maybe_body: Option<Stmt<L::Expr, L::Decl>>,
        b0: FunctionBuilder,
        start: Block,
        end: Block,
        s1: Self,
        b1: FunctionBuilder,
        s2: Self,
        b2: FunctionBuilder,
        value: CompileResult<Value>,
        fallen: u32,
        b3: FunctionBuilder,
        s3: Self,
        b4: FunctionBuilder,
        r_body: CompileResult<()>,
        b5: FunctionBuilder,
        later: Self,
        bf: FunctionBuilder,
        r: CompileResult<()>,
    ) -> bool
        decreases 1 + weight_maybe(maybe_body), 1nat,
    {
        &&& self.entered(s1, start, end)
        &&& loop_entered(b0, b1, start, end)
        &&& match maybe_condition {
            Some(condition) => s1.evaluated(condition, b1, s2, b2, value),
            None => s2 == s1 && b2 == b1,
        }
        &&& if maybe_condition is Some && value is Err {
            &&& r == Err::<(), CompileError>(value->Err_0)
            &&& s2.exited(later, self.last_saw_loop)
            &&& bf == b2
        } else {
            &&& if maybe_condition is Some {
                forked(b2, b3, (value->Ok_0).0, fallen, end.0, set![fallen])
            } else {
                b3 == b2
            }
            &&& match maybe_body {
                Some(body) => s2.compiled(body, b3, s3, b4, r_body),
                None => r_body is Ok && s3 == s2 && b4 == b3,
            }
            &&& s3.exited(later, self.last_saw_loop)
            &&& if r_body is Err {
                r == r_body && bf == b4
            } else {
                &&& r is Ok
                &&& jumped(b4, b5, start)
                &&& moved(b5, bf)
                &&& current_block(bf) == Some(end.0)
            }
        }
    }

    /// What a loop that tests before its body does in an open block.
    pub open spec fn looped(
        self,
        maybe_condition: Option<Locatable<L::Expr>>,
        maybe_body: Option<Stmt<L::Expr, L::Decl>>,
        b0: FunctionBuilder,
        later: Self,
        bf: FunctionBuilder,
        r: CompileResult<()>,
    ) -> bool
        decreases 1 + weight_maybe(maybe_body), 2nat,
    {
        exists|
            start: Block,
            end: Block,
            s1: Self,
            b1: FunctionBuilder,
            s2: Self,
            b2: FunctionBuilder,
            value: CompileResult<Value>,
            fallen: u32,
            b3: FunctionBuilder,
            s3: Self,
            b4: FunctionBuilder,
            r_body: CompileResult<()>,
            b5: FunctionBuilder,
        | #[trigger]
            chosen(
                ((start, end, s1, b1), (s2, b2, value, fallen, b3), (s3, b4, r_body, b5)),
            ) && self.looped_via(
                maybe_condition,
                maybe_body,
                b0,
                start,
                end,
                s1,
                b1,
                s2,
                b2,
                value,
                fallen,
                b3,
                s3,
                b4,
                r_body,
                b5,
                later,
                bf,
                r,
            )
    }

    /// What `do body while (condition)` does in an open block.
    ///
    /// The loop is entered: the current block jumps to the new block
    /// `start`, and the new block `end` is set aside; that is `(s1, b1)`. The
    /// body is lowered, which leads to `(s2, b2)` with the result `r_body`; a
    /// failure leaves the loop and stops there. A body that terminated its
    /// block makes the condition unreachable, which is an error at the
    /// condition. Else the condition is lowered, which leads to `(s3, b3)`
    /// with the result `value`; a failure leaves the loop and stops there.
    /// The block branches on zero to `end` and jumps back to `start`, which
    /// is `b4`. The loop is left, and lowering goes on in `end`.
    pub open spec fn did_via(
        self,
        body: Stmt<L::Expr, L::Decl>,
        condition: Locatable<L::Expr>,
        b0: FunctionBuilder,
        start: Block,
        end: Block,
        s1: Self,
        b1: FunctionBuilder,
        s2: Self,
        b2: FunctionBuilder,
        r_body: CompileResult<()>,
        s3: Self,
        b3: FunctionBuilder,
        value: CompileResult<Value>,
        b4: FunctionBuilder,
        later: Self,
        bf: FunctionBuilder,
        r: CompileResult<()>,
    ) -> bool
        decreases 1 + weight(body), 1nat,
    {
        &&& self.entered(s1, start, end)
        &&& loop_entered(b0, b1, start, end)
        &&& s1.compiled(body, b1, s2, b2, r_body)
        &&& if r_body is Err {
            r == r_body && s2.exited(later, self.last_saw_loop) && bf == b2
        } else if filled_now(b2) {
            &&& r == Err::<(), CompileError>(
                condition.location.spec_error(SemanticError::UnreachableStatement),
            )
            &&& s2.exited(later, self.last_saw_loop)
            &&& bf == b2
        } else {
            &&& s2.evaluated(condition, b2, s3, b3, value)
            &&& s3.exited(later, self.last_saw_loop)
            &&& match value {
                Err(e) => r == Err::<(), CompileError>(e) && bf == b3,
                Ok(v) => {
                    &&& r is Ok
                    &&& branched_on(b3, b4, v.0, end.0, start.0)
                    &&& moved(b4, bf)
                    &&& current_block(bf) == Some(end.0)
                },
            }
        }
    }

    /// What `do body while (condition)` does in an open block.
    pub open spec fn did(
        self,
        body: Stmt<L::Expr, L::Decl>,
        condition: Locatable<L::Expr>,
        b0: FunctionBuilder,
        later: Self,
        bf: FunctionBuilder,
        r: CompileResult<()>,
    ) -> bool
        decreases 1 + weight(body), 2nat,
    {
        exists|
            start: Block,
            end: Block,
            s1: Self,
            b1: FunctionBuilder,
            s2: Self,
            b2: FunctionBuilder,
            r_body: CompileResult<()>,
            s3: Self,
            b3: FunctionBuilder,
            value: CompileResult<Value>,
            b4: FunctionBuilder,
        | #[trigger]
            chosen(((start, end, s1, b1), (s2, b2, r_body), (s3, b3, value, b4))) && self.did_via(
                body,
                condition,
                b0,
                start,
                end,
                s1,
                b1,
                s2,
                b2,
                r_body,
                s3,
                b3,
                value,
                b4,
                later,
                bf,
                r,
            )
    }

    /// What `for (init; condition; post_loop) body` at `location` does in an
    /// open block.
    ///
    /// The statement `init`, if there is one, is lowered, which leads to
    /// `(s1, b1)` with the result `r_init`; a failure stops there. If that
    /// terminated the block, the loop cannot be reached, which is an error at
    /// `location`. Else the loop is lowered as a loop that tests before its
    /// body, and its body is `rewritten`, the body with the post-expression
    /// after it.
    pub open spec fn iterated_via(
        self,
        init: Option<Box<Stmt<L::Expr, L::Decl>>>,
        condition: Option<Locatable<L::Expr>>,
        post_loop: Option<Locatable<L::Expr>>,
        body: Option<Box<Stmt<L::Expr, L::Decl>>>,
        location: Location,
        b0: FunctionBuilder,
        s1: Self,
        b1: FunctionBuilder,
        r_init: CompileResult<()>,
        rewritten: Option<Stmt<L::Expr, L::Decl>>,
        later: Self,
        bf: FunctionBuilder,
        r: CompileResult<()>,
    ) -> bool
        decreases 4 + weight_opt(init) + weight_opt(body), 1nat,
    {
        &&& match init {
            Some(init) => self.compiled(*init, b0, s1, b1, r_init),
            None => r_init is Ok && s1 == self && b1 == b0,
        }
        &&& if r_init is Err {
            r == r_init && later == s1 && bf == b1
        } else if filled_now(b1) {
            &&& r == Err::<(), CompileError>(
                location.spec_error(SemanticError::UnreachableStatement),
            )
            &&& later == s1
            &&& bf == b1
        } else {
            &&& is_for_body(rewritten, post_loop, body, location)
            &&& weight_maybe(rewritten) <= weight_opt(body) + 2
            &&& s1.looped(condition, rewritten, b1, later, bf, r)
        }
    }

    /// What `for (init; condition; post_loop) body` at `location` does in an
    /// open block.
    pub open spec fn iterated(
        self,
        init: Option<Box<Stmt<L::Expr, L::Decl>>>,
        condition: Option<Locatable<L::Expr>>,
        post_loop: Option<Locatable<L::Expr>>,
        body: Option<Box<Stmt<L::Expr, L::Decl>>>,
        location: Location,
        b0: FunctionBuilder,
        later: Self,
        bf: FunctionBuilder,
        r: CompileResult<()>,
    ) -> bool
        decreases 4 + weight_opt(init) + weight_opt(body), 2nat,
    {
        exists|
            s1: Self,
            b1: FunctionBuilder,
            r_init: CompileResult<()>,
            rewritten: Option<Stmt<L::Expr, L::Decl>>,
        | #[trigger]
            chosen((s1, b1, r_init, rewritten)) && self.iterated_via(
                init,
                condition,
                post_loop,
                body,
                location,
                b0,
                s1,
                b1,
                r_init,
                rewritten,
                later,
                bf,
                r,
            )
    }

    /// What `switch (condition) body` does in an open block.
    ///
    /// The condition is lowered, which leads to `(s1, b1)` with the result
    /// `value`; a failure stops there. Three blocks are made: `dispatch`, which the current block
    /// jumps to, `start`, where the body begins, and `end`; that is `b2`. A
    /// context that ends in `end` is pushed, which is `s2`. The body is
    /// lowered, which leads to `(s3, b3)` with the result `r_body`. The
    /// context is popped again; a failure stops there. Unless terminated, the
    /// body jumps to `end`: that is `b4`. The dispatch is written into
    /// `dispatch` from what the body entered into the context, and falls
    /// back to the default of the context, or to `end` if it has none: from
    /// `b5` to `b6`. Lowering goes on in `end`.
    pub open spec fn switched_via(
        self,
        condition: Locatable<L::Expr>,
        body: Stmt<L::Expr, L::Decl>,
        b0: FunctionBuilder,
        s1: Self,
        b1: FunctionBuilder,
        value: CompileResult<Value>,
        dispatch: Block,
        start: Block,
        end: Block,
        b2: FunctionBuilder,
        s2: Self,
        s3: Self,
        b3: FunctionBuilder,
        r_body: CompileResult<()>,
        b4: FunctionBuilder,
        b5: FunctionBuilder,
        b6: FunctionBuilder,
        later: Self,
        bf: FunctionBuilder,
        r: CompileResult<()>,
    ) -> bool
        decreases 1 + weight(body), 1nat,
    {
        &&& self.evaluated(condition, b0, s1, b1, value)
        &&& match value {
            Err(e) => r == Err::<(), CompileError>(e) && later == s1 && bf == b1,
            Ok(v) => {
                &&& switch_entered(b1, b2, dispatch.0, start.0, end.0)
                &&& s1.entered_switch(s2, end)
                &&& s2.compiled(body, b2, s3, b3, r_body)
                &&& s3.left_switch(later, self.last_saw_loop)
                &&& if r_body is Err {
                    r == r_body && bf == b3
                } else {
                    &&& r is Ok
                    &&& jumped(b3, b4, end)
                    &&& moved(b4, b5)
                    &&& current_block(b5) == Some(dispatch.0)
                    &&& emitted(
                        b5,
                        b6,
                        v.0,
                        switch_entries(s3.switches@.last().table),
                        match s3.switches@.last().default {
                            Some(default) => default.0,
                            None => end.0,
                        },
                    )
                    &&& moved(b6, bf)
                    &&& current_block(bf) == Some(end.0)
                }
            },
        }
    }

    /// What `switch (condition) body` does in an open block.
    pub open spec fn switched(
        self,
        condition: Locatable<L::Expr>,
        body: Stmt<L::Expr, L::Decl>,
        b0: FunctionBuilder,
        later: Self,
        bf: FunctionBuilder,
        r: CompileResult<()>,
    ) -> bool
        decreases 1 + weight(body), 2nat,
    {
        exists|
            s1: Self,
            b1: FunctionBuilder,
            value: CompileResult<Value>,
            dispatch: Block,
            start: Block,
            end: Block,
            b2: FunctionBuilder,
            s2: Self,
            s3: Self,
            b3: FunctionBuilder,
            r_body: CompileResult<()>,
            b4: FunctionBuilder,
            b5: FunctionBuilder,
            b6: FunctionBuilder,
        | #[trigger]
            chosen(
                ((s1, b1, value, dispatch, start, end, b2), (s2, s3, b3, r_body), (b4, b5, b6)),
            ) && self.switched_via(
                condition,
                body,
                b0,
                s1,
                b1,
                value,
                dispatch,
                start,
                end,
                b2,
                s2,
                s3,
                b3,
                r_body,
                b4,
                b5,
                b6,
                later,
                bf,
                r,
            )
    }

    #[via_fn]
    proof fn compiled_all_via_decreases(
        self,
        stmts: Seq<Stmt<L::Expr, L::Decl>>,
        b0: FunctionBuilder,
        s1: Self,
        b1: FunctionBuilder,
        r1: CompileResult<()>,
        later: Self,
        bf: FunctionBuilder,
        r: CompileResult<()>,
    ) {
        if stmts.len() > 0 {
            lemma_weight_positive(stmts.last());
        }
    }

    #[via_fn]
    proof fn compiled_decreases(
        self,
        stmt: Stmt<L::Expr, L::Decl>,
        b0: FunctionBuilder,
        later: Self,
        bf: FunctionBuilder,
        r: CompileResult<()>,
    ) {
        match stmt.data {
            StmtType::While(_, body) => {
                assert(weight_maybe(
                    match body {
                        Some(body) => Some(*body),
                        None => None,
                    },
                ) == weight_opt(body));
            },
            _ => {},
        }
    }

    /// What lowering the statements `stmts` in order does: each but the
    /// last is lowered, which leads to `(s1, b1)` with the result `r1`; a
    /// failure stops there, and else the last is lowered.
    pub open spec fn compiled_all_via(
        self,
        stmts: Seq<Stmt<L::Expr, L::Decl>>,
        b0: FunctionBuilder,
        s1: Self,
        b1: FunctionBuilder,
        r1: CompileResult<()>,
        later: Self,
        bf: FunctionBuilder,
        r: CompileResult<()>,
    ) -> bool
        decreases weight_all(stmts), 1nat,
        via Self::compiled_all_via_decreases
    {
        stmts.len() > 0 && {
            &&& self.compiled_all(stmts.drop_last(), b0, s1, b1, r1)
            &&& if r1 is Err {
                r == r1 && later == s1 && bf == b1
            } else {
                s1.compiled(stmts.last(), b1, later, bf, r)
            }
        }
    }

    /// What lowering the statements `stmts` in order does: nothing if
    /// there is none, and else each is lowered where the one before it led,
    /// up to the first that fails.
    pub open spec fn compiled_all(
        self,
        stmts: Seq<Stmt<L::Expr, L::Decl>>,
        b0: FunctionBuilder,
        later: Self,
        bf: FunctionBuilder,
        r: CompileResult<()>,
    ) -> bool
        decreases weight_all(stmts), 2nat,
    {
        if stmts.len() == 0 {
            r is Ok && later == self && bf == b0
        } else {
            exists|s1: Self, b1: FunctionBuilder, r1: CompileResult<()>| #[trigger]
                chosen((s1, b1, r1)) && self.compiled_all_via(stmts, b0, s1, b1, r1, later, bf, r)
        }
    }

    /// What lowering `stmt` does.
    ///
    /// A statement that cannot be reached is an error at the statement and
    /// changes nothing. Every other statement does what its kind says.
    pub open spec fn compiled(
        self,
        stmt: Stmt<L::Expr, L::Decl>,
        b0: FunctionBuilder,
        later: Self,
        bf: FunctionBuilder,
        r: CompileResult<()>,
    ) -> bool
        decreases weight(stmt), 0nat,
        via Self::compiled_decreases
    {
        if Self::rejects(b0, stmt) {
            &&& r == Err::<(), CompileError>(
                stmt.location.spec_error(SemanticError::UnreachableStatement),
            )
            &&& later == self
            &&& bf == b0
        } else {
            match stmt.data {
                StmtType::Compound(stmts) => self.compiled_all(stmts@, b0, later, bf, r),
                StmtType::Decl(decls) => self.declared(decls@, b0, later, bf, r),
                StmtType::Expr(expr) => self.expressed(expr, b0, later, bf, r),
                StmtType::Return(expr) => self.returned(expr, b0, later, bf, r),
                StmtType::If(condition, body, otherwise) => self.branched(
                    condition,
                    *body,
                    otherwise,
                    b0,
                    later,
                    bf,
                    r,
                ),
                StmtType::While(condition, body) => self.looped(
                    Some(condition),
                    match body {
                        Some(body) => Some(*body),
                        None => None,
                    },
                    b0,
                    later,
                    bf,
                    r,
                ),
                StmtType::Do(body, condition) => self.did(
                    *body,
                    condition,
                    b0,
                    later,
                    bf,
                    r,
                ),
                StmtType::For(init, condition, post_loop, body) => self.iterated(
                    init,
                    match condition {
                        Some(condition) => Some(*condition),
                        None => None,
                    },
                    match post_loop {
                        Some(post_loop) => Some(*post_loop),
                        None => None,
                    },
                    body,
                    stmt.location,
                    b0,
                    later,
                    bf,
                    r,
                ),
                StmtType::Switch(condition, body) => self.switched(
                    condition,
                    *body,
                    b0,
                    later,
                    bf,
                    r,
                ),
                StmtType::Label(name, inner) => self.labelled(
                    name,
                    inner,
                    stmt.location,
                    b0,
                    later,
                    bf,
                    r,
                ),
                StmtType::Case(constexpr, inner) => self.cased(
                    constexpr,
                    inner,
                    stmt.location,
                    b0,
                    later,
                    bf,
                    r,
                ),
                StmtType::Default(inner) => self.defaulted(inner, stmt.location, b0, later, bf, r),
                StmtType::Goto(name) => self.went_to(name, stmt.location, b0, later, bf, r),
                StmtType::Continue => self.left_by_exit(false, stmt.location, b0, later, bf, r),
                StmtType::Break => self.left_by_exit(true, stmt.location, b0, later, bf, r),
            }
        }
    }
}

} // verus!
