//! The smallest expression language that statements can be lowered with.

use crate::data::error::CompileResult;
use crate::data::error::ErrorHandler;
use crate::data::location::Locatable;
use crate::data::location::Location;
use crate::ir::builder::appended;
use crate::ir::builder::branch_edges;
use crate::ir::builder::iconst;
use crate::ir::builder::nothing_noted;
use crate::ir::builder::Value;
use crate::ir::graph::lemma_appended;
use crate::ir::graph::lemma_grows_refl;
use crate::ir::SubLowerer;
use cranelift::frontend::FunctionBuilder;
use vstd::prelude::*;

verus! {

/// A sub-lowerer for statements whose expressions are integer literals and
/// whose declarations need no storage: an expression becomes one constant
/// instruction, a declaration becomes nothing.
#[derive(Clone, Copy, Debug, PartialEq, Eq, Structural)]
pub struct Literals;

impl SubLowerer for Literals {
    type Expr = i64;

    type Decl = ();

    /// A literal always lowers: one instruction goes to the current block
    /// and defines the value. Nothing is branched on, returned or reported.
    open spec fn expr_lowered(
        self,
        expr: Locatable<i64>,
        b0: FunctionBuilder,
        e0: ErrorHandler,
        later: Self,
        b1: FunctionBuilder,
        e1: ErrorHandler,
        r: CompileResult<Value>,
    ) -> bool {
        &&& r is Ok
        &&& e1 == e0
        &&& appended(b0, b1)
        &&& branch_edges(b1) == branch_edges(b0)
        &&& nothing_noted(b0, b1)
    }

    /// A declaration always succeeds and does nothing.
    open spec fn stack_declared(
        self,
        decl: (),
        location: Location,
        b0: FunctionBuilder,
        e0: ErrorHandler,
        later: Self,
        b1: FunctionBuilder,
        e1: ErrorHandler,
        r: CompileResult<()>,
    ) -> bool {
        r is Ok && e1 == e0 && b1 == b0
    }

    fn compile_expr(
        &mut self,
        expr: Locatable<i64>,
        builder: &mut FunctionBuilder,
        errors: &mut ErrorHandler,
    ) -> (r: CompileResult<Value>)
    {
        let ghost b0 = *builder;
        let value = iconst(builder, expr.data);
        proof {
            lemma_appended(b0, *builder);
        }
        Ok(value)
    }

    fn declare_stack(
        &mut self,
        decl: (),
        location: Location,
        builder: &mut FunctionBuilder,
        errors: &mut ErrorHandler,
    ) -> (r: CompileResult<()>)
    {
        proof {
            lemma_grows_refl(*builder);
        }
        Ok(())
    }
}

} // verus!
