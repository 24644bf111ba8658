//! What follows from the meaning of lowering, whatever the sub-lowerer does.

use crate::data::error::CompileError;
use crate::data::error::CompileResult;
use crate::data::error::SemanticError;
use crate::data::stmt::Stmt;
use crate::data::stmt::StmtType;
use crate::ir::builder::Block;
use crate::ir::builder::branch_edges;
use crate::ir::builder::created_blocks;
use crate::ir::builder::current_block;
use crate::ir::builder::filled_blocks;
use crate::ir::builder::filled_now;
use crate::ir::builder::nothing_noted;
use crate::ir::builder::pristine_blocks;
use crate::ir::builder::switch_entries;
use crate::ir::builder::Value;
use crate::ir::Compiler;
use crate::ir::graph::fell_through;
use crate::ir::graph::forked;
use crate::ir::graph::grows;
use crate::ir::graph::ran_into;
use crate::ir::graph::switch_entered;
use crate::ir::builder::return_values;
use crate::ir::builder::zero_tests;
use crate::ir::graph::jumped;
use crate::ir::graph::loop_entered;
use crate::ir::graph::open_now;
use crate::ir::graph::ready;
use crate::ir::semantics::chosen;
use crate::ir::semantics::fails_with_message;
use crate::ir::semantics::stray_exit_message;
use crate::ir::SubLowerer;
use cranelift::frontend::FunctionBuilder;
use vstd::prelude::*;

verus! {

/// Asking twice for a jump is asking once: the second request, whatever
/// its target, finds the block terminated and changes nothing.
pub proof fn lemma_jump_to_block_idempotent(
    b0: FunctionBuilder,
    b1: FunctionBuilder,
    b2: FunctionBuilder,
    first: Block,
    second: Block,
)
    requires
        current_block(b0).is_some(),
        jumped(b0, b1, first),
        jumped(b1, b2, second),
    ensures
        b2 == b1,
{
}

/// Entering a loop and leaving it again puts the loop stack and the loop
/// flag back exactly, and touches nothing else of the lowerer's state.
pub proof fn lemma_exit_undoes_enter<L: SubLowerer>(
    before: Compiler<L>,
    inside: Compiler<L>,
    after: Compiler<L>,
    body: Block,
    end: Block,
)
    requires
        before.entered(inside, body, end),
        inside.exited(after, before.last_saw_loop),
    ensures
        after.loops@ == before.loops@,
        after.last_saw_loop == before.last_saw_loop,
        before.same_but_loops(after),
{
    assert(before.loops@.push((body, end)).drop_last() =~= before.loops@);
}

/// No block is left half-built: in a builder that is ready, every block
/// that holds an instruction, other than the one being built, has its
/// terminator.
pub proof fn lemma_only_current_block_is_open(b: FunctionBuilder, blk: u32)
    requires
        ready(b),
        created_blocks(b).contains(blk),
        current_block(b) != Some(blk),
        !pristine_blocks(b).contains(blk),
    ensures
        filled_blocks(b).contains(blk),
{
}

/// A terminator is the last word of its block: however the builder grows,
/// a block that was terminated stays terminated, and the ways out of it, its
/// branches on zero and its return stay the ones it had.
pub proof fn lemma_terminated_block_is_final(
    b0: FunctionBuilder,
    b1: FunctionBuilder,
    blk: u32,
    to: u32,
    value: u32,
    values: Seq<u32>,
)
    requires
        grows(b0, b1),
        created_blocks(b0).contains(blk),
        filled_blocks(b0).contains(blk),
    ensures
        filled_blocks(b1).contains(blk),
        branch_edges(b1).contains((blk, to)) == branch_edges(b0).contains((blk, to)),
        zero_tests(b1).contains((blk, value, to)) == zero_tests(b0).contains((blk, value, to)),
        return_values(b1).contains((blk, values)) == return_values(b0).contains((blk, values)),
{
}

/// Where the lowerer leaves a block that can still take instructions for
/// a new one, it enters the new block from the old: by a jump when it runs
/// or falls into the new block or enters a loop, and by both ways out of a
/// test. Only a block that follows a terminated block, and the block after
/// a loop, an `if` or a `switch`, can be without a way in.
pub proof fn lemma_new_block_is_entered(
    b0: FunctionBuilder,
    b1: FunctionBuilder,
    n: u32,
    other: u32,
    value: u32,
    made: Set<u32>,
)
    requires
        open_now(b0),
    ensures
        ran_into(b0, b1, n) ==> branch_edges(b1).contains((current_block(b0).unwrap(), n)),
        fell_through(b0, b1) ==> branch_edges(b1).contains(
            (current_block(b0).unwrap(), current_block(b1).unwrap()),
        ),
        loop_entered(b0, b1, Block(n), Block(other)) ==> branch_edges(b1).contains(
            (current_block(b0).unwrap(), n),
        ),
        forked(b0, b1, value, n, other, made) ==> branch_edges(b1).contains(
            (current_block(b0).unwrap(), n),
        ) && branch_edges(b1).contains((current_block(b0).unwrap(), other)),
        switch_entered(b0, b1, n, other, value) ==> branch_edges(b1).contains(
            (current_block(b0).unwrap(), n),
        ),
{
}

/// Lowering never changes what a `switch` has entered: a constant keeps
/// the block it was entered for, and a default stays the default.
pub proof fn lemma_switch_entries_are_kept<L: SubLowerer>(
    before: Compiler<L>,
    after: Compiler<L>,
    constant: u64,
)
    requires
        before.carried_to(after),
        before.switches@.len() > 0,
    ensures
        after.switches@.len() > 0,
        switch_entries(before.switches@.last().table).contains_key(constant) ==> switch_entries(
            after.switches@.last().table,
        ).contains_key(constant) && switch_entries(after.switches@.last().table)[constant]
            == switch_entries(before.switches@.last().table)[constant],
        before.switches@.last().default is Some ==> after.switches@.last().default
            == before.switches@.last().default,
{
    let m0 = switch_entries(before.switches@.last().table);
    let m1 = switch_entries(after.switches@.last().table);
    assert(m0.submap_of(m1));
    if m0.contains_key(constant) {
        assert(m0.dom().contains(constant));
        assert(m1.dom().contains(constant));
        assert(m0[constant] == m1[constant]);
    }
}

/// `return`, `break`, `continue` and `goto`.
pub open spec fn leaves_its_block<E, D>(stmt: Stmt<E, D>) -> bool {
    stmt.data is Return || stmt.data is Break || stmt.data is Continue || stmt.data is Goto
}

/// A `return`, `break`, `continue` or `goto` that was lowered without
/// error has terminated the current block.
pub proof fn lemma_leaving_terminates<L: SubLowerer>(
    before: Compiler<L>,
    stmt: Stmt<L::Expr, L::Decl>,
    b0: FunctionBuilder,
    after: Compiler<L>,
    b1: FunctionBuilder,
    r: CompileResult<()>,
)
    requires
        leaves_its_block(stmt),
        before.compiled(stmt, b0, after, b1, r),
        r is Ok,
    ensures
        filled_now(b1),
{
    match stmt.data {
        StmtType::Return(Some(expr)) => {
            let (s1, m1, value) = choose|
                s1: Compiler<L>,
                m1: FunctionBuilder,
                value: CompileResult<Value>,
            | #[trigger] before.returned_via(expr, b0, s1, m1, value, after, b1, r);
        },
        _ => {},
    }
}

/// A statement that follows a `return`, `break`, `continue` or `goto`, and
/// that is no `case`, `default` or label, is rejected as unreachable, and
/// rejecting it changes nothing.
pub proof fn lemma_unreachable_after_leaving<L: SubLowerer>(
    before: Compiler<L>,
    first: Stmt<L::Expr, L::Decl>,
    second: Stmt<L::Expr, L::Decl>,
    b0: FunctionBuilder,
    between: Compiler<L>,
    b1: FunctionBuilder,
    r1: CompileResult<()>,
    after: Compiler<L>,
    b2: FunctionBuilder,
    r2: CompileResult<()>,
)
    requires
        leaves_its_block(first),
        !second.data.spec_is_jump_target(),
        before.compiled(first, b0, between, b1, r1),
        r1 is Ok,
        between.compiled(second, b1, after, b2, r2),
    ensures
        r2 == Err::<(), CompileError>(
            second.location.spec_error(SemanticError::UnreachableStatement),
        ),
        after == between,
        b2 == b1,
{
    lemma_leaving_terminates(before, first, b0, between, b1, r1);
}

/// In a sequence of statements, one that follows a `return`, `break`,
/// `continue` or `goto` and is no `case`, `default` or label stops the
/// lowering: the sequence fails with the error for an unreachable statement
/// at that statement, unless the statement before it failed already.
pub proof fn lemma_sequence_stops_at_unreachable<L: SubLowerer>(
    before: Compiler<L>,
    first: Stmt<L::Expr, L::Decl>,
    second: Stmt<L::Expr, L::Decl>,
    b0: FunctionBuilder,
    after: Compiler<L>,
    b2: FunctionBuilder,
    r: CompileResult<()>,
)
    requires
        leaves_its_block(first),
        !second.data.spec_is_jump_target(),
        before.compiled_all(seq![first, second], b0, after, b2, r),
    ensures
        r is Err,
        !Compiler::<L>::rejects(b0, first) && !(first.data is Return) ==> r == Err::<
            (),
            CompileError,
        >(second.location.spec_error(SemanticError::UnreachableStatement)) || (first.data
            is Goto && !before.labels@.contains_key(first.data->Goto_0@)) || first.data
            is Break && before.exit_target(true) is None || first.data is Continue
            && before.exit_target(false) is None,
{
    let both = seq![first, second];
    let (s1, m1, r1) = choose|s1: Compiler<L>, m1: FunctionBuilder, r1: CompileResult<()>| #[trigger]
        chosen((s1, m1, r1)) && before.compiled_all_via(both, b0, s1, m1, r1, after, b2, r);
    let one = both.drop_last();
    assert(one =~= seq![first]);
    assert(one.len() == 1);
    let (s0, m0, r0) = choose|s0: Compiler<L>, m0: FunctionBuilder, r0: CompileResult<()>| #[trigger]
        chosen((s0, m0, r0)) && before.compiled_all_via(one, b0, s0, m0, r0, s1, m1, r1);
    assert(one.drop_last() =~= Seq::<Stmt<L::Expr, L::Decl>>::empty());
    assert(one.last() == first);
    assert(both.last() == second);
    assert(s0 == before && m0 == b0 && r0 is Ok);
    assert(before.compiled(first, b0, s1, m1, r1));
    if r1 is Ok {
        lemma_unreachable_after_leaving(before, first, second, b0, s1, m1, r1, after, b2, r);
    }
}

/// A label is lowered wherever it stands, also after a terminated block:
/// a label without a statement never fails.
pub proof fn lemma_label_is_accepted<L: SubLowerer>(
    before: Compiler<L>,
    stmt: Stmt<L::Expr, L::Decl>,
    b0: FunctionBuilder,
    after: Compiler<L>,
    b1: FunctionBuilder,
    r: CompileResult<()>,
)
    requires
        stmt.data matches StmtType::Label(_, None),
        before.compiled(stmt, b0, after, b1, r),
    ensures
        r is Ok,
        open_now(b1) || !ready(b0),
{
    let name = stmt.data->Label_0;
    let (s1, m1) = choose|s1: Compiler<L>, m1: FunctionBuilder| #[trigger]
        chosen((s1, m1)) && before.labelled_via(name, None, stmt.location, b0, s1, m1, after, b1, r);
}

/// A `case` or `default` without a statement is lowered wherever it
/// stands in a `switch`, also after a terminated block: it fails only
/// outside a `switch` and as a duplicate.
pub proof fn lemma_case_is_accepted<L: SubLowerer>(
    before: Compiler<L>,
    stmt: Stmt<L::Expr, L::Decl>,
    b0: FunctionBuilder,
    after: Compiler<L>,
    b1: FunctionBuilder,
    r: CompileResult<()>,
)
    requires
        before.switches@.len() > 0,
        match stmt.data {
            StmtType::Case(constant, None) => !switch_entries(
                before.switches@.last().table,
            ).contains_key(constant),
            StmtType::Default(None) => before.switches@.last().default is None,
            _ => false,
        },
        before.compiled(stmt, b0, after, b1, r),
    ensures
        r is Ok,
{
    match stmt.data {
        StmtType::Case(constant, inner) => {
            let (t, s1, m1) = choose|t: u32, s1: Compiler<L>, m1: FunctionBuilder| #[trigger]
                chosen((t, s1, m1)) && before.cased_via(constant, inner, b0, t, s1, m1, after, b1, r);
        },
        StmtType::Default(inner) => {
            let (t, s1, m1) = choose|t: u32, s1: Compiler<L>, m1: FunctionBuilder| #[trigger]
                chosen((t, s1, m1)) && before.defaulted_via(inner, b0, t, s1, m1, after, b1, r);
        },
        _ => {},
    }
}

/// In a `switch` that stands in no loop, or in a loop further out,
/// `break` jumps to the end of the `switch` and `continue` is an error.
pub proof fn lemma_exits_in_switch<L: SubLowerer>(
    before: Compiler<L>,
    stmt: Stmt<L::Expr, L::Decl>,
    b0: FunctionBuilder,
    after: Compiler<L>,
    b1: FunctionBuilder,
    r: CompileResult<()>,
)
    requires
        !before.last_saw_loop,
        before.switches@.len() > 0,
        open_now(b0),
        stmt.data is Break || stmt.data is Continue,
        before.compiled(stmt, b0, after, b1, r),
    ensures
        after == before,
        stmt.data is Break ==> r is Ok && jumped(b0, b1, before.switches@.last().end),
        stmt.data is Continue ==> b1 == b0 && fails_with_message(
            r,
            stmt.location,
            "'continue' not in loop"@,
        ),
{
}

/// Outside every loop and `switch`, `break` and `continue` are errors and
/// change nothing.
pub proof fn lemma_exits_outside<L: SubLowerer>(
    before: Compiler<L>,
    stmt: Stmt<L::Expr, L::Decl>,
    b0: FunctionBuilder,
    after: Compiler<L>,
    b1: FunctionBuilder,
    r: CompileResult<()>,
)
    requires
        before.last_saw_loop,
        before.loops@.len() == 0,
        open_now(b0),
        stmt.data is Break || stmt.data is Continue,
        before.compiled(stmt, b0, after, b1, r),
    ensures
        after == before,
        b1 == b0,
        fails_with_message(
            r,
            stmt.location,
            stray_exit_message(true, stmt.data is Break),
        ),
{
}

/// In a loop, `break` jumps to the block after the loop and `continue` to
/// its start.
pub proof fn lemma_exits_in_loop<L: SubLowerer>(
    before: Compiler<L>,
    stmt: Stmt<L::Expr, L::Decl>,
    b0: FunctionBuilder,
    after: Compiler<L>,
    b1: FunctionBuilder,
    r: CompileResult<()>,
)
    requires
        before.last_saw_loop,
        before.loops@.len() > 0,
        open_now(b0),
        stmt.data is Break || stmt.data is Continue,
        before.compiled(stmt, b0, after, b1, r),
    ensures
        after == before,
        r is Ok,
        stmt.data is Break ==> jumped(b0, b1, before.loops@.last().1),
        stmt.data is Continue ==> jumped(b0, b1, before.loops@.last().0),
{
}

/// `for (;;) {}` and `for (;;);` lower to a loop without a test: a block
/// that the block before it jumps to and that jumps to itself. Nothing
/// leads to the block after the loop, where lowering goes on; the lowerer's
/// state is as before but for where its loop stack is kept.
pub proof fn lemma_endless_for<L: SubLowerer>(
    before: Compiler<L>,
    stmt: Stmt<L::Expr, L::Decl>,
    b0: FunctionBuilder,
    after: Compiler<L>,
    b2: FunctionBuilder,
    r: CompileResult<()>,
)
    requires
        open_now(b0),
        match stmt.data {
            StmtType::For(None, None, None, None) => true,
            StmtType::For(None, None, None, Some(body)) => body.data matches StmtType::Compound(
                stmts,
            ) && stmts@.len() == 0,
            _ => false,
        },
        before.compiled(stmt, b0, after, b2, r),
    ensures
        r is Ok,
        after.loops@ == before.loops@,
        after.last_saw_loop == before.last_saw_loop,
        before.same_but_loops(after),
        exists|start: Block, end: Block, b1: FunctionBuilder|
            {
                &&& #[trigger] loop_entered(b0, b1, start, end)
                &&& filled_blocks(b2) == filled_blocks(b1).insert(start.0)
                &&& pristine_blocks(b2) == pristine_blocks(b1).remove(start.0)
                &&& branch_edges(b2) == branch_edges(b1).insert((start.0, start.0))
                &&& created_blocks(b2) == created_blocks(b1)
                &&& nothing_noted(b1, b2)
                &&& current_block(b2) == Some(end.0)
            },
{
    let init = stmt.data->For_0;
    let body = stmt.data->For_3;
    let (s1, m1, r_init, rewritten) = choose|
        s1: Compiler<L>,
        m1: FunctionBuilder,
        r_init: CompileResult<()>,
        rewritten: Option<Stmt<L::Expr, L::Decl>>,
    | #[trigger]
        chosen((s1, m1, r_init, rewritten)) && before.iterated_via(
            init,
            None,
            None,
            body,
            stmt.location,
            b0,
            s1,
            m1,
            r_init,
            rewritten,
            after,
            b2,
            r,
        );
    assert(s1 == before && m1 == b0);
    let (start, end, t1, c1, t2, c2, value, fallen, c3, t3, c4, r_body, c5) = choose|
        start: Block,
        end: Block,
        t1: Compiler<L>,
        c1: FunctionBuilder,
        t2: Compiler<L>,
        c2: FunctionBuilder,
        value: CompileResult<Value>,
        fallen: u32,
        c3: FunctionBuilder,
        t3: Compiler<L>,
        c4: FunctionBuilder,
        r_body: CompileResult<()>,
        c5: FunctionBuilder,
    | #[trigger]
        chosen(((start, end, t1, c1), (t2, c2, value, fallen, c3), (t3, c4, r_body, c5)))
            && before.looped_via(
            None,
            rewritten,
            b0,
            start,
            end,
            t1,
            c1,
            t2,
            c2,
            value,
            fallen,
            c3,
            t3,
            c4,
            r_body,
            c5,
            after,
            b2,
            r,
        );
    assert(t3 == t1 && c4 == c1 && r_body is Ok);
    assert(before.loops@.push((start, end)).drop_last() =~= before.loops@);
    assert(loop_entered(b0, c1, start, end));
}

/// `do { return; } while (..)`, and any `do` whose body is a statement
/// that leaves its block, fails with the error for an unreachable statement
/// at the condition, unless the body fails itself.
pub proof fn lemma_do_with_leaving_body<L: SubLowerer>(
    before: Compiler<L>,
    stmt: Stmt<L::Expr, L::Decl>,
    b0: FunctionBuilder,
    after: Compiler<L>,
    b2: FunctionBuilder,
    r: CompileResult<()>,
)
    requires
        open_now(b0),
        stmt.data matches StmtType::Do(body, _) && body.data matches StmtType::Return(None),
        before.compiled(stmt, b0, after, b2, r),
    ensures
        r == Err::<(), CompileError>(
            (stmt.data->Do_1).location.spec_error(SemanticError::UnreachableStatement),
        ),
        after.loops@ == before.loops@,
        after.last_saw_loop == before.last_saw_loop,
{
    let body = *(stmt.data->Do_0);
    let condition = stmt.data->Do_1;
    let (start, end, s1, c1, s2, c2, r_body, s3, c3, value, c4) = choose|
        start: Block,
        end: Block,
        s1: Compiler<L>,
        c1: FunctionBuilder,
        s2: Compiler<L>,
        c2: FunctionBuilder,
        r_body: CompileResult<()>,
        s3: Compiler<L>,
        c3: FunctionBuilder,
        value: CompileResult<Value>,
        c4: FunctionBuilder,
    | #[trigger]
        chosen(((start, end, s1, c1), (s2, c2, r_body), (s3, c3, value, c4))) && before.did_via(
            body,
            condition,
            b0,
            start,
            end,
            s1,
            c1,
            s2,
            c2,
            r_body,
            s3,
            c3,
            value,
            c4,
            after,
            b2,
            r,
        );
    assert(before.loops@.push((start, end)).drop_last() =~= before.loops@);
}

} // verus!
