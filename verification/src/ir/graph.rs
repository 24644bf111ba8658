//! What the lowerer relies on about the graph under construction, and
//! why each step of the builder keeps it.

use crate::ir::builder::appended;
use crate::ir::builder::Block;
use crate::ir::builder::branch_edges;
use crate::ir::builder::created_blocks;
use crate::ir::builder::current_block;
use crate::ir::builder::defined_values;
use crate::ir::builder::dispatches;
use crate::ir::builder::edge_added;
use crate::ir::builder::emitted;
use crate::ir::builder::filled_blocks;
use crate::ir::builder::filled_now;
use crate::ir::builder::moved;
use crate::ir::builder::nothing_noted;
use crate::ir::builder::pristine_blocks;
use crate::ir::builder::pristine_now;
use crate::ir::builder::return_added;
use crate::ir::builder::return_values;
use crate::ir::builder::terminated;
use crate::ir::builder::Value;
use crate::ir::builder::zero_test_added;
use crate::ir::builder::zero_tests;
use cranelift::frontend::FunctionBuilder;
use vstd::prelude::*;

verus! {

/// A block `n` came into being: it did not exist, it is empty and not
/// terminated, and nothing else changed.
pub open spec fn fresh_block(b0: FunctionBuilder, b1: FunctionBuilder, n: u32) -> bool {
    &&& !created_blocks(b0).contains(n)
    &&& created_blocks(b1) == created_blocks(b0).insert(n)
    &&& pristine_blocks(b1) == pristine_blocks(b0).insert(n)
    &&& filled_blocks(b1) == filled_blocks(b0)
    &&& !filled_blocks(b1).contains(n)
    &&& current_block(b1) == current_block(b0)
    &&& defined_values(b1) == defined_values(b0)
    &&& branch_edges(b1) == branch_edges(b0)
    &&& nothing_noted(b0, b1)
}

/// The current block exists and can take further instructions.
pub open spec fn open_now(b: FunctionBuilder) -> bool {
    current_block(b) matches Some(c) && created_blocks(b).contains(c) && !filled_blocks(
        b,
    ).contains(c)
}

/// `blk` was created and set aside: it is empty and is not being built.
pub open spec fn reserved(b: FunctionBuilder, blk: u32) -> bool {
    &&& created_blocks(b).contains(blk)
    &&& pristine_blocks(b).contains(blk)
    &&& !filled_blocks(b).contains(blk)
    &&& current_block(b) != Some(blk)
}

/// Every block but the current one is either still empty or terminated:
/// no block was left half-built.
pub open spec fn closed(b: FunctionBuilder) -> bool {
    forall|blk: u32| #[trigger]
        created_blocks(b).contains(blk) && current_block(b) != Some(blk) ==> (
        pristine_blocks(b).contains(blk) || filled_blocks(b).contains(blk))
}

/// The state in which statements can be lowered: a current block exists,
/// no block is at once empty and terminated, and only the current block may
/// be half-built.
pub open spec fn ready(b: FunctionBuilder) -> bool {
    &&& current_block(b) matches Some(c) && created_blocks(b).contains(c)
    &&& closed(b)
    &&& forall|blk: u32| #[trigger]
        created_blocks(b).contains(blk) ==> !(pristine_blocks(b).contains(blk) && filled_blocks(
            b,
        ).contains(blk))
}

/// What holds between two states of one builder, however many
/// instructions and blocks were added in between: nothing is forgotten, a
/// terminated block stays terminated and gains no further way out, test,
/// return or dispatch, and a block that was set aside is still set aside.
pub open spec fn grows(b0: FunctionBuilder, b1: FunctionBuilder) -> bool {
    &&& created_blocks(b0).subset_of(created_blocks(b1))
    &&& defined_values(b0).subset_of(defined_values(b1))
    &&& branch_edges(b0).subset_of(branch_edges(b1))
    &&& forall|blk: u32|
        created_blocks(b0).contains(blk) && filled_blocks(b0).contains(blk)
            ==> #[trigger] filled_blocks(b1).contains(blk)
    &&& forall|blk: u32| #[trigger] reserved(b0, blk) ==> reserved(b1, blk)
    &&& forall|from: u32, to: u32|
        created_blocks(b0).contains(from) && filled_blocks(b0).contains(from)
            && #[trigger] branch_edges(b1).contains((from, to)) ==> branch_edges(b0).contains(
            (from, to),
        )
    &&& zero_tests(b0).subset_of(zero_tests(b1))
    &&& return_values(b0).subset_of(return_values(b1))
    &&& dispatches(b0).subset_of(dispatches(b1))
    &&& forall|from: u32, value: u32, to: u32|
        created_blocks(b0).contains(from) && filled_blocks(b0).contains(from)
            && #[trigger] zero_tests(b1).contains((from, value, to)) ==> zero_tests(b0).contains(
            (from, value, to),
        )
    &&& forall|from: u32, value: Seq<u32>|
        created_blocks(b0).contains(from) && filled_blocks(b0).contains(from)
            && #[trigger] return_values(b1).contains((from, value)) ==> return_values(
            b0,
        ).contains((from, value))
    &&& forall|from: u32, value: u32, entries: Map<u64, u32>, to: u32|
        created_blocks(b0).contains(from) && filled_blocks(b0).contains(from)
            && #[trigger] dispatches(b1).contains((from, value, entries, to)) ==> dispatches(
            b0,
        ).contains((from, value, entries, to))
}

/// After a jump to `target` was asked for: nothing happened if the
/// current block was terminated already, else the jump terminated it.
pub open spec fn jumped(b0: FunctionBuilder, b1: FunctionBuilder, target: Block) -> bool {
    if filled_now(b0) {
        b1 == b0
    } else {
        terminated(b0, b1) && edge_added(b0, b1, target.0) && nothing_noted(b0, b1)
    }
}

/// After the current block fell through into a block of its own: the
/// new block is current and empty, and the one way out of the old block
/// leads to it.
pub open spec fn fell_through(b0: FunctionBuilder, b1: FunctionBuilder) -> bool {
    current_block(b0) matches Some(c) && current_block(b1) matches Some(n) && {
        &&& !created_blocks(b0).contains(n)
        &&& !filled_blocks(b0).contains(n)
        &&& created_blocks(b1) == created_blocks(b0).insert(n)
        &&& filled_blocks(b1) == filled_blocks(b0).insert(c)
        &&& pristine_blocks(b1) == pristine_blocks(b0).remove(c).insert(n)
        &&& branch_edges(b1) == branch_edges(b0).insert((c, n))
        &&& defined_values(b0).subset_of(defined_values(b1))
        &&& nothing_noted(b0, b1)
    }
}

/// After the current block ran into a new block `n`: `n` is current and
/// empty, and the old block, unless it was terminated already, ends with a
/// jump to `n`.
pub open spec fn ran_into(b0: FunctionBuilder, b1: FunctionBuilder, n: u32) -> bool {
    current_block(b0) matches Some(c) && {
        &&& !created_blocks(b0).contains(n)
        &&& created_blocks(b1) == created_blocks(b0).insert(n)
        &&& current_block(b1) == Some(n)
        &&& !filled_blocks(b1).contains(n)
        &&& defined_values(b0).subset_of(defined_values(b1))
        &&& nothing_noted(b0, b1)
        &&& if filled_now(b0) {
            &&& filled_blocks(b1) == filled_blocks(b0)
            &&& pristine_blocks(b1) == pristine_blocks(b0).insert(n)
            &&& branch_edges(b1) == branch_edges(b0)
        } else {
            &&& filled_blocks(b1) == filled_blocks(b0).insert(c)
            &&& pristine_blocks(b1) == pristine_blocks(b0).remove(c).insert(n)
            &&& branch_edges(b1) == branch_edges(b0).insert((c, n))
        }
    }
}

/// After a loop was entered from the current block: two new blocks exist,
/// `body` and `end`, both empty; the old block is terminated by a jump to
/// `body`, which is now current.
pub open spec fn loop_entered(
    b0: FunctionBuilder,
    b1: FunctionBuilder,
    body: Block,
    end: Block,
) -> bool {
    current_block(b0) matches Some(c) && {
        &&& body != end
        &&& !created_blocks(b0).contains(body.0)
        &&& !created_blocks(b0).contains(end.0)
        &&& !filled_blocks(b0).contains(body.0)
        &&& !filled_blocks(b0).contains(end.0)
        &&& created_blocks(b1) == created_blocks(b0).insert(body.0).insert(end.0)
        &&& current_block(b1) == Some(body.0)
        &&& filled_blocks(b1) == filled_blocks(b0).insert(c)
        &&& pristine_blocks(b1) == pristine_blocks(b0).remove(c).insert(body.0).insert(end.0)
        &&& branch_edges(b1) == branch_edges(b0).insert((c, body.0))
        &&& defined_values(b0).subset_of(defined_values(b1))
        &&& nothing_noted(b0, b1)
    }
}

/// After the current block tested `value`, with the blocks `made` newly
/// made: on zero it goes to `otherwise`, else to `taken`, and lowering goes
/// on in `taken`, which is one of the new blocks.
pub open spec fn forked(
    b0: FunctionBuilder,
    b1: FunctionBuilder,
    value: u32,
    taken: u32,
    otherwise: u32,
    made: Set<u32>,
) -> bool {
    current_block(b0) matches Some(c) && {
        &&& made.contains(taken)
        &&& forall|n: u32| #[trigger]
            made.contains(n) ==> !created_blocks(b0).contains(n) && !filled_blocks(b0).contains(n)
        &&& created_blocks(b1) == created_blocks(b0).union(made)
        &&& filled_blocks(b1) == filled_blocks(b0).insert(c)
        &&& pristine_blocks(b1) == pristine_blocks(b0).remove(c).union(made)
        &&& branch_edges(b1) == branch_edges(b0).insert((c, otherwise)).insert((c, taken))
        &&& zero_tests(b1) == zero_tests(b0).insert((c, value, otherwise))
        &&& return_values(b1) == return_values(b0)
        &&& dispatches(b1) == dispatches(b0)
        &&& current_block(b1) == Some(taken)
        &&& defined_values(b0).subset_of(defined_values(b1))
    }
}

/// After the current block tested `value` and ended: on zero it goes to
/// `on_zero`, else it jumps to `then`. It stays the current block.
pub open spec fn branched_on(
    b0: FunctionBuilder,
    b1: FunctionBuilder,
    value: u32,
    on_zero: u32,
    then: u32,
) -> bool {
    current_block(b0) matches Some(c) && {
        &&& current_block(b1) == Some(c)
        &&& created_blocks(b1) == created_blocks(b0)
        &&& filled_blocks(b1) == filled_blocks(b0).insert(c)
        &&& pristine_blocks(b1) == pristine_blocks(b0).remove(c)
        &&& branch_edges(b1) == branch_edges(b0).insert((c, on_zero)).insert((c, then))
        &&& zero_tests(b1) == zero_tests(b0).insert((c, value, on_zero))
        &&& return_values(b1) == return_values(b0)
        &&& dispatches(b1) == dispatches(b0)
        &&& defined_values(b0).subset_of(defined_values(b1))
    }
}

/// After a `switch` was entered from the current block: three new blocks
/// exist, all empty; the old block is terminated by a jump to `dispatch`,
/// and `start` is current.
pub open spec fn switch_entered(
    b0: FunctionBuilder,
    b1: FunctionBuilder,
    dispatch: u32,
    start: u32,
    end: u32,
) -> bool {
    current_block(b0) matches Some(c) && {
        &&& dispatch != start && dispatch != end && start != end
        &&& forall|n: u32|
            n == dispatch || n == start || n == end ==> !(#[trigger] created_blocks(b0).contains(
                n,
            )) && !filled_blocks(b0).contains(n)
        &&& created_blocks(b1) == created_blocks(b0).insert(dispatch).insert(start).insert(end)
        &&& filled_blocks(b1) == filled_blocks(b0).insert(c)
        &&& pristine_blocks(b1) == pristine_blocks(b0).remove(c).insert(dispatch).insert(
            start,
        ).insert(end)
        &&& branch_edges(b1) == branch_edges(b0).insert((c, dispatch))
        &&& current_block(b1) == Some(start)
        &&& defined_values(b0).subset_of(defined_values(b1))
        &&& nothing_noted(b0, b1)
    }
}

pub proof fn lemma_grows_refl(b: FunctionBuilder)
    ensures
        grows(b, b),
{
}

pub proof fn lemma_grows_trans(b0: FunctionBuilder, b1: FunctionBuilder, b2: FunctionBuilder)
    requires
        grows(b0, b1),
        grows(b1, b2),
    ensures
        grows(b0, b2),
{
}

/// A new block leaves the builder ready and is itself set aside.
pub proof fn lemma_fresh_block(b0: FunctionBuilder, b1: FunctionBuilder, n: u32)
    requires
        ready(b0),
        fresh_block(b0, b1, n),
    ensures
        ready(b1),
        grows(b0, b1),
        reserved(b1, n),
        filled_now(b1) == filled_now(b0),
        pristine_now(b1) == pristine_now(b0),
{
}

/// An instruction in an open block leaves the builder ready and open.
pub proof fn lemma_appended(b0: FunctionBuilder, b1: FunctionBuilder)
    requires
        ready(b0),
        open_now(b0),
        appended(b0, b1),
        branch_edges(b1) == branch_edges(b0) || exists|to: u32| edge_added(b0, b1, to),
        nothing_noted(b0, b1) || exists|value: u32, to: u32| zero_test_added(b0, b1, value, to),
    ensures
        ready(b1),
        open_now(b1),
        !pristine_now(b1),
        grows(b0, b1),
{
}

/// A terminator in an open block leaves the builder ready, on a
/// terminated block.
pub proof fn lemma_terminated(b0: FunctionBuilder, b1: FunctionBuilder)
    requires
        ready(b0),
        open_now(b0),
        terminated(b0, b1),
        branch_edges(b1) == branch_edges(b0) || exists|to: u32| edge_added(b0, b1, to),
        nothing_noted(b0, b1) || exists|values: Seq<Value>| return_added(b0, b1, values),
    ensures
        ready(b1),
        filled_now(b1),
        grows(b0, b1),
{
}

/// Going over to a block that was set aside leaves the builder ready, on
/// an empty block, and keeps aside what else was set aside.
pub proof fn lemma_moved(b0: FunctionBuilder, b1: FunctionBuilder, to: u32)
    requires
        ready(b0),
        filled_now(b0) || pristine_now(b0),
        reserved(b0, to),
        moved(b0, b1),
        current_block(b1) == Some(to),
    ensures
        ready(b1),
        open_now(b1),
        pristine_now(b1),
        forall|blk: u32| #[trigger] reserved(b0, blk) && blk != to ==> reserved(b1, blk),
{
}

/// Growth from `b0` survives going over to a block that `b0` did not
/// have.
pub proof fn lemma_grows_moved(b0: FunctionBuilder, b1: FunctionBuilder, b2: FunctionBuilder, to: u32)
    requires
        grows(b0, b1),
        moved(b1, b2),
        current_block(b2) == Some(to),
        !created_blocks(b0).contains(to),
    ensures
        grows(b0, b2),
{
}

/// A dispatch written into an open block leaves the builder ready, on a
/// terminated block.
pub proof fn lemma_emitted(
    b0: FunctionBuilder,
    b1: FunctionBuilder,
    scrutinee: u32,
    entries: Map<u64, u32>,
    otherwise: u32,
)
    requires
        ready(b0),
        open_now(b0),
        emitted(b0, b1, scrutinee, entries, otherwise),
    ensures
        ready(b1),
        filled_now(b1),
        grows(b0, b1),
{
    let c = current_block(b0).unwrap();
    assert forall|blk: u32| #[trigger] reserved(b0, blk) implies reserved(b1, blk) by {
        assert(created_blocks(b0).contains(blk) && blk != c);
        assert(pristine_blocks(b1).contains(blk) == pristine_blocks(b0).contains(blk));
        assert(filled_blocks(b1).contains(blk) == filled_blocks(b0).contains(blk));
    }
    assert forall|blk: u32|
        created_blocks(b0).contains(blk) && filled_blocks(b0).contains(
            blk,
        ) implies #[trigger] filled_blocks(b1).contains(blk) by {
        assert(blk != c);
        assert(filled_blocks(b1).contains(blk) == filled_blocks(b0).contains(blk));
    }
}

/// Falling through leaves the builder ready, on an empty block.
pub proof fn lemma_fell_through(b0: FunctionBuilder, b1: FunctionBuilder)
    requires
        ready(b0),
        open_now(b0),
        fell_through(b0, b1),
    ensures
        ready(b1),
        open_now(b1),
        pristine_now(b1),
        grows(b0, b1),
{
}

/// Entering a loop leaves the builder ready, on the empty block of the
/// body, with the block after the loop set aside, and growth from the state
/// before goes on past any block that it did not have.
pub proof fn lemma_loop_entered(b0: FunctionBuilder, b1: FunctionBuilder, body: Block, end: Block)
    requires
        ready(b0),
        open_now(b0),
        loop_entered(b0, b1, body, end),
    ensures
        ready(b1),
        open_now(b1),
        pristine_now(b1),
        reserved(b1, end.0),
        grows(b0, b1),
{
}

/// A new block, a jump to it unless the block is terminated, and going
/// over to it: that is running into the new block.
pub proof fn lemma_ran_into(
    b0: FunctionBuilder,
    b1: FunctionBuilder,
    b2: FunctionBuilder,
    b3: FunctionBuilder,
    n: Block,
)
    requires
        ready(b0),
        fresh_block(b0, b1, n.0),
        jumped(b1, b2, n),
        moved(b2, b3),
        current_block(b3) == Some(n.0),
    ensures
        ran_into(b0, b3, n.0),
{
    let c = current_block(b0).unwrap();
    if !filled_now(b0) {
        assert(pristine_blocks(b3) =~= pristine_blocks(b0).remove(c).insert(n.0));
    }
}

} // verus!
