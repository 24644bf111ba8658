//! The control-flow graph under construction and the statement lowerer.

use crate::data::error::CompileError;
use crate::data::error::CompileResult;
use crate::data::error::ErrorHandler;
use crate::data::location::Locatable;
use crate::data::location::Location;
use crate::ir::builder::Block;
use crate::ir::builder::created_blocks;
use crate::ir::builder::defined_values;
use crate::ir::builder::filled_now;
use crate::ir::builder::switch_entries;
use crate::ir::builder::Value;
use crate::ir::graph::grows;
use crate::ir::graph::lemma_grows_trans;
use crate::ir::graph::ready;
use crate::ir::labels::LabelMap;
use cranelift::frontend::FunctionBuilder;
use cranelift::frontend::Switch;
use vstd::prelude::*;

pub mod builder;
pub mod graph;
pub mod labels;
pub mod laws;
pub mod literal;
pub mod semantics;
pub mod stmt;

verus! {

/// What the statement lowerer asks of the rest of the compiler: lowering
/// an expression to a value, and installing a declaration as a stack slot.
///
/// Both work on the builder that the statement lowerer works on, so both
/// owe it the state it relies on: they end on a block that can take further
/// instructions, and they leave alone what was terminated or set aside.
pub trait SubLowerer: Sized {
    type Expr;

    type Decl;

    /// What `compile_expr` does, in the sub-lowerer's own terms: how the
    /// expression `expr` leads from this state, the builder `b0` and the
    /// collector `e0` to the state `later`, the builder `b1`, the collector
    /// `e1` and the result `r`. A sub-lowerer that says nothing of itself
    /// leaves this as it is.
    open spec fn expr_lowered(
        self,
        expr: Locatable<Self::Expr>,
        b0: FunctionBuilder,
        e0: ErrorHandler,
        later: Self,
        b1: FunctionBuilder,
        e1: ErrorHandler,
        r: CompileResult<Value>,
    ) -> bool {
        true
    }

    /// What `declare_stack` does, in the sub-lowerer's own terms. A
    /// sub-lowerer that says nothing of itself leaves this as it is.
    open spec fn stack_declared(
        self,
        decl: Self::Decl,
        location: Location,
        b0: FunctionBuilder,
        e0: ErrorHandler,
        later: Self,
        b1: FunctionBuilder,
        e1: ErrorHandler,
        r: CompileResult<()>,
    ) -> bool {
        true
    }

    /// Lowers `expr` at the current position and returns its value.
    fn compile_expr(
        &mut self,
        expr: Locatable<Self::Expr>,
        builder: &mut FunctionBuilder,
        errors: &mut ErrorHandler,
    ) -> (r: CompileResult<Value>)
        requires
            ready(*old(builder)),
            !filled_now(*old(builder)),
        ensures
            ready(*final(builder)),
            !filled_now(*final(builder)),
            grows(*old(builder), *final(builder)),
            (*old(errors)).kept_by(*final(errors)),
            r matches Ok(v) ==> defined_values(*final(builder)).contains(v.0),
            old(self).expr_lowered(
                expr,
                *old(builder),
                *old(errors),
                *final(self),
                *final(builder),
                *final(errors),
                r,
            ),
    ;

    /// Installs `decl`, found at `location`, as a stack slot.
    fn declare_stack(
        &mut self,
        decl: Self::Decl,
        location: Location,
        builder: &mut FunctionBuilder,
        errors: &mut ErrorHandler,
    ) -> (r: CompileResult<()>)
        requires
            ready(*old(builder)),
            !filled_now(*old(builder)),
        ensures
            ready(*final(builder)),
            !filled_now(*final(builder)),
            grows(*old(builder), *final(builder)),
            (*old(errors)).kept_by(*final(errors)),
            old(self).stack_declared(
                decl,
                location,
                *old(builder),
                *old(errors),
                *final(self),
                *final(builder),
                *final(errors),
                r,
            ),
    ;
}

/// What an enclosing `switch` has gathered: its jump table, the block of
/// its `default` if one was seen, and the block that follows the statement.
pub struct SwitchContext {
    pub table: Switch,
    pub default: Option<Block>,
    pub end: Block,
}

impl SwitchContext {
    /// Every block that the context names exists in `b`.
    pub open spec fn known_to(self, b: FunctionBuilder) -> bool {
        &&& created_blocks(b).contains(self.end.0)
        &&& self.default matches Some(d) ==> created_blocks(b).contains(d.0)
        &&& forall|k: u64| #[trigger]
            switch_entries(self.table).contains_key(k) ==> created_blocks(b).contains(
                switch_entries(self.table)[k],
            )
    }

    /// `later` is this context after more of the body was lowered: the same
    /// end, the entries and the default that were there, and possibly more.
    pub open spec fn extended_by(self, later: SwitchContext) -> bool {
        &&& later.end == self.end
        &&& self.default is Some ==> later.default == self.default
        &&& switch_entries(self.table).submap_of(switch_entries(later.table))
    }
}

/// The stack `s1` is the stack `s0` with its innermost context extended.
pub open spec fn stack_extended(s0: Seq<SwitchContext>, s1: Seq<SwitchContext>) -> bool {
    &&& s1.len() == s0.len()
    &&& s0.len() > 0 ==> s1.drop_last() == s0.drop_last() && s0.last().extended_by(s1.last())
}

/// The state of the statement lowerer within one function.
pub struct Compiler<L: SubLowerer> {
    /// Lowers expressions and installs declarations.
    pub sub: L,
    /// Whether the innermost enclosing loop or `switch` is a loop.
    pub last_saw_loop: bool,
    /// The enclosing loops, innermost last: where `continue` goes, and
    /// where `break` goes.
    pub loops: Vec<(Block, Block)>,
    /// The enclosing `switch` statements, innermost last.
    pub switches: Vec<SwitchContext>,
    /// The labels seen so far in this function.
    pub labels: LabelMap,
    /// Where diagnostics go that do not stop the lowering.
    pub error_handler: ErrorHandler,
}

impl<L: SubLowerer> Compiler<L> {
    /// The lowerer's state fits the builder `b`: every block that it
    /// remembers exists there, and outside a loop context a `switch` context
    /// is at hand.
    pub open spec fn inv(self, b: FunctionBuilder) -> bool {
        &&& self.labels.wf()
        &&& !self.last_saw_loop ==> self.switches@.len() > 0
        &&& forall|i: int|
            0 <= i < self.loops@.len() ==> created_blocks(b).contains(
                (#[trigger] self.loops@[i]).0.0,
            ) && created_blocks(b).contains(self.loops@[i].1.0)
        &&& forall|i: int|
            0 <= i < self.switches@.len() ==> (#[trigger] self.switches@[i]).known_to(b)
        &&& forall|name: Seq<char>| #[trigger]
            self.labels@.contains_key(name) ==> created_blocks(b).contains(self.labels@[name].0)
    }

    /// What lowering a statement leaves of the lowerer's state: the loop
    /// stack and the loop flag as they were, the `switch` stack with at most
    /// its innermost context extended, every label that was known, and every
    /// diagnostic that was reported.
    pub open spec fn carried_to(self, later: Self) -> bool {
        &&& later.loops@ == self.loops@
        &&& later.last_saw_loop == self.last_saw_loop
        &&& stack_extended(self.switches@, later.switches@)
        &&& forall|name: Seq<char>| #[trigger]
            self.labels@.contains_key(name) ==> later.labels@.contains_key(name)
        &&& self.error_handler.kept_by(later.error_handler)
    }

    /// A lowerer for the start of a function: in no loop, in no `switch`,
    /// with no label and no diagnostic.
    pub fn new(sub: L) -> (r: Self)
        ensures
            r.sub == sub,
            r.last_saw_loop,
            r.loops@ == Seq::<(Block, Block)>::empty(),
            r.switches@ == Seq::<SwitchContext>::empty(),
            r.labels@ == Map::<Seq<char>, Block>::empty(),
            r.error_handler.errors@ == Seq::<CompileError>::empty(),
            forall|b: FunctionBuilder| r.inv(b),
    {
        Compiler {
            sub,
            last_saw_loop: true,
            loops: Vec::new(),
            switches: Vec::new(),
            labels: LabelMap::new(),
            error_handler: ErrorHandler::new(),
        }
    }

    /// What lowering leaves behind, whether it succeeded or not: a state
    /// of the lowerer that fits the builder and carries on what was there, and
    /// a builder that is ready and has only grown.
    pub open spec fn lowered(
        self,
        b0: FunctionBuilder,
        later: Self,
        b1: FunctionBuilder,
    ) -> bool {
        &&& later.inv(b1)
        &&& ready(b1)
        &&& grows(b0, b1)
        &&& self.carried_to(later)
    }

    /// A state that fits a builder fits every builder with more blocks.
    pub proof fn lemma_inv_grows(self, b0: FunctionBuilder, b1: FunctionBuilder)
        requires
            self.inv(b0),
            created_blocks(b0).subset_of(created_blocks(b1)),
        ensures
            self.inv(b1),
    {
        assert forall|i: int| 0 <= i < self.switches@.len() implies (
        #[trigger] self.switches@[i]).known_to(b1) by {
            assert(self.switches@[i].known_to(b0));
        }
    }

    /// Doing nothing carries the state on.
    pub proof fn lemma_carried_refl(self)
        ensures
            self.carried_to(self),
    {
    }

    /// Carrying on goes step by step.
    pub proof fn lemma_carried_trans(self, mid: Self, later: Self)
        requires
            self.carried_to(mid),
            mid.carried_to(later),
        ensures
            self.carried_to(later),
    {
        lemma_prefix_trans(
            self.error_handler.errors@,
            mid.error_handler.errors@,
            later.error_handler.errors@,
        );
        lemma_prefix_trans(
            self.error_handler.warnings@,
            mid.error_handler.warnings@,
            later.error_handler.warnings@,
        );
        if self.switches@.len() > 0 {
            let m0 = switch_entries(self.switches@.last().table);
            let m1 = switch_entries(mid.switches@.last().table);
            let m2 = switch_entries(later.switches@.last().table);
            assert(m0.submap_of(m2)) by {
                assert forall|k: u64| #[trigger] m0.dom().contains(k) implies m2.dom().contains(k)
                    && m0[k] == m2[k] by {
                    assert(m1.dom().contains(k));
                }
            }
        }
    }

    /// What lowering leaves behind after what was carried on and grown
    /// before it, it leaves behind from the start.
    pub proof fn lemma_lowered_trans(
        self,
        b0: FunctionBuilder,
        mid: Self,
        b1: FunctionBuilder,
        later: Self,
        b2: FunctionBuilder,
    )
        requires
            self.carried_to(mid),
            grows(b0, b1),
            mid.lowered(b1, later, b2),
        ensures
            self.lowered(b0, later, b2),
    {
        lemma_grows_trans(b0, b1, b2);
        self.lemma_carried_trans(mid, later);
    }

    /// Leaving a loop after lowering its inside carries on the state from
    /// before the loop was entered.
    pub proof fn lemma_left_loop(
        self,
        entered: Self,
        inside: Self,
        left: Self,
        body: Block,
        end: Block,
        b: FunctionBuilder,
    )
        requires
            self.entered(entered, body, end),
            entered.carried_to(inside),
            inside.exited(left, self.last_saw_loop),
            inside.inv(b),
            !self.last_saw_loop ==> self.switches@.len() > 0,
        ensures
            self.carried_to(left),
            left.inv(b),
    {
        assert(self.loops@.push((body, end)).drop_last() =~= self.loops@);
        assert forall|i: int| 0 <= i < left.loops@.len() implies created_blocks(b).contains(
            (#[trigger] left.loops@[i]).0.0,
        ) && created_blocks(b).contains(left.loops@[i].1.0) by {
            assert(left.loops@[i] == inside.loops@[i]);
        }
    }

    /// Leaving a `switch` after lowering its body carries on the state from
    /// before its context was pushed.
    pub proof fn lemma_left_switch(
        self,
        entered: Self,
        inside: Self,
        left: Self,
        b: FunctionBuilder,
    )
        requires
            self.error_handler.kept_by(entered.error_handler),
            entered.labels == self.labels,
            entered.loops == self.loops,
            entered.switches@.len() == self.switches@.len() + 1,
            entered.switches@.drop_last() == self.switches@,
            entered.carried_to(inside),
            left.switches@ == inside.switches@.drop_last(),
            left.last_saw_loop == self.last_saw_loop,
            left.loops == inside.loops,
            left.labels == inside.labels,
            left.error_handler == inside.error_handler,
            inside.inv(b),
            !self.last_saw_loop ==> self.switches@.len() > 0,
        ensures
            self.carried_to(left),
            left.inv(b),
            left.switches@ == self.switches@,
    {
        lemma_prefix_trans(
            self.error_handler.errors@,
            entered.error_handler.errors@,
            left.error_handler.errors@,
        );
        lemma_prefix_trans(
            self.error_handler.warnings@,
            entered.error_handler.warnings@,
            left.error_handler.warnings@,
        );
        assert forall|i: int| 0 <= i < left.switches@.len() implies (
        #[trigger] left.switches@[i]).known_to(b) by {
            assert(left.switches@[i] == inside.switches@[i]);
        }
    }
}

/// A start of a start of a sequence is a start of the sequence.
pub proof fn lemma_prefix_trans<T>(a: Seq<T>, b: Seq<T>, c: Seq<T>)
    requires
        a.is_prefix_of(b),
        b.is_prefix_of(c),
    ensures
        a.is_prefix_of(c),
{
    assert(a =~= c.subrange(0, a.len() as int)) by {
        assert(b =~= c.subrange(0, b.len() as int));
        assert(a =~= b.subrange(0, a.len() as int));
    }
}

} // verus!
