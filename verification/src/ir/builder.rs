//! The function builder as the lowerer sees it.
//!
//! The builder itself is Cranelift's `FunctionBuilder`. Nothing in this file
//! is proved of it: the block bookkeeping below is a reading of Cranelift's
//! source, written down as contracts on one thin function per builder call.
//! Everything outside this file is proved against those contracts.

use cranelift::codegen::cursor::Cursor;
use cranelift::frontend::FunctionBuilder;
use cranelift::frontend::Switch;
use cranelift::prelude::InstBuilder;
use vstd::prelude::*;

verus! {

#[verifier::external_type_specification]
#[verifier::external_body]
pub struct ExFunctionBuilder<'a>(cranelift::frontend::FunctionBuilder<'a>);

#[verifier::external_type_specification]
#[verifier::external_body]
pub struct ExSwitch(cranelift::frontend::Switch);

/// Handle of a basic block: the number Cranelift gave it.
#[derive(Clone, Copy, Debug, PartialEq, Eq, Hash, Structural)]
pub struct Block(pub u32);

/// Handle of an SSA value: the number Cranelift gave it.
#[derive(Clone, Copy, Debug, PartialEq, Eq, Hash, Structural)]
pub struct Value(pub u32);

/// The blocks that `create_block` has handed out so far.
pub uninterp spec fn created_blocks(b: FunctionBuilder) -> Set<u32>;

/// The blocks that Cranelift counts as empty: no instruction went to them
/// and no cursor was taken on them.
pub uninterp spec fn pristine_blocks(b: FunctionBuilder) -> Set<u32>;

/// The blocks that have received their terminator.
pub uninterp spec fn filled_blocks(b: FunctionBuilder) -> Set<u32>;

/// The block that new instructions go to, if one was chosen.
pub uninterp spec fn current_block(b: FunctionBuilder) -> Option<u32>;

/// The values that instructions of the function have defined.
pub uninterp spec fn defined_values(b: FunctionBuilder) -> Set<u32>;

/// The pairs `(from, to)` such that an instruction in block `from` may
/// transfer control to block `to`.
pub uninterp spec fn branch_edges(b: FunctionBuilder) -> Set<(u32, u32)>;

/// The triples `(block, value, target)` such that an instruction in
/// `block` branches to `target` when `value` is zero.
pub uninterp spec fn zero_tests(b: FunctionBuilder) -> Set<(u32, u32, u32)>;

/// The pairs `(block, values)` such that `block` ends in a return of
/// `values`.
pub uninterp spec fn return_values(b: FunctionBuilder) -> Set<(u32, Seq<u32>)>;

/// The dispatches written so far, each as the block that it starts in, the
/// value that it switches on, its entries, and the block that it falls back
/// to.
pub uninterp spec fn dispatches(b: FunctionBuilder) -> Set<(u32, u32, Map<u64, u32>, u32)>;

/// The entries of a jump table under construction: case constant to block.
pub uninterp spec fn switch_entries(s: Switch) -> Map<u64, u32>;

/// No branch on zero, no return and no dispatch was written.
pub open spec fn nothing_noted(b0: FunctionBuilder, b1: FunctionBuilder) -> bool {
    &&& zero_tests(b1) == zero_tests(b0)
    &&& return_values(b1) == return_values(b0)
    &&& dispatches(b1) == dispatches(b0)
}

/// Nothing changed but, possibly, which block is current.
pub open spec fn moved(b0: FunctionBuilder, b1: FunctionBuilder) -> bool {
    &&& created_blocks(b1) == created_blocks(b0)
    &&& pristine_blocks(b1) == pristine_blocks(b0)
    &&& filled_blocks(b1) == filled_blocks(b0)
    &&& defined_values(b1) == defined_values(b0)
    &&& branch_edges(b1) == branch_edges(b0)
    &&& nothing_noted(b0, b1)
}

/// An instruction that does not end the block went to the current block:
/// the block is no longer empty, and nothing else changed.
pub open spec fn appended(b0: FunctionBuilder, b1: FunctionBuilder) -> bool {
    &&& current_block(b1) == current_block(b0)
    &&& created_blocks(b1) == created_blocks(b0)
    &&& filled_blocks(b1) == filled_blocks(b0)
    &&& current_block(b0) matches Some(c) && pristine_blocks(b1) == pristine_blocks(b0).remove(c)
    &&& defined_values(b0).subset_of(defined_values(b1))
}

/// A terminator went to the current block: the block is terminated and no
/// longer empty, and nothing else changed.
pub open spec fn terminated(b0: FunctionBuilder, b1: FunctionBuilder) -> bool {
    &&& current_block(b1) == current_block(b0)
    &&& created_blocks(b1) == created_blocks(b0)
    &&& current_block(b0) matches Some(c) && {
        &&& filled_blocks(b1) == filled_blocks(b0).insert(c)
        &&& pristine_blocks(b1) == pristine_blocks(b0).remove(c)
    }
    &&& defined_values(b0).subset_of(defined_values(b1))
}

/// The current block got one more way out, to `to`.
pub open spec fn edge_added(b0: FunctionBuilder, b1: FunctionBuilder, to: u32) -> bool {
    current_block(b0) matches Some(c) && branch_edges(b1) == branch_edges(b0).insert((c, to))
}

/// The current block got a branch to `to`, taken when `value` is zero, and
/// no return and no dispatch was written.
pub open spec fn zero_test_added(
    b0: FunctionBuilder,
    b1: FunctionBuilder,
    value: u32,
    to: u32,
) -> bool {
    &&& current_block(b0) matches Some(c) && zero_tests(b1) == zero_tests(b0).insert((c, value, to))
    &&& return_values(b1) == return_values(b0)
    &&& dispatches(b1) == dispatches(b0)
}

/// The current block got a return of `values`, and no branch on zero and
/// no dispatch was written.
pub open spec fn return_added(
    b0: FunctionBuilder,
    b1: FunctionBuilder,
    values: Seq<Value>,
) -> bool {
    &&& current_block(b0) matches Some(c) && return_values(b1) == return_values(b0).insert(
        (c, values.map_values(|v: Value| v.0)),
    )
    &&& zero_tests(b1) == zero_tests(b0)
    &&& dispatches(b1) == dispatches(b0)
}

/// The current block has its terminator.
pub open spec fn filled_now(b: FunctionBuilder) -> bool {
    current_block(b) matches Some(c) && filled_blocks(b).contains(c)
}

/// The current block has no instruction yet.
pub open spec fn pristine_now(b: FunctionBuilder) -> bool {
    current_block(b) matches Some(c) && pristine_blocks(b).contains(c)
}

/// What `Switch::emit` leaves behind when it is called with the value
/// `scrutinee`, the entries `entries` and the fallback block `otherwise`.
pub open spec fn emitted(
    b0: FunctionBuilder,
    b1: FunctionBuilder,
    scrutinee: u32,
    entries: Map<u64, u32>,
    otherwise: u32,
) -> bool {
    &&& current_block(b0) matches Some(c) && {
        &&& dispatches(b1) == dispatches(b0).insert((c, scrutinee, entries, otherwise))
        &&& forall|from: u32, value: u32, to: u32| #[trigger]
            zero_tests(b1).contains((from, value, to)) && !zero_tests(b0).contains(
                (from, value, to),
            ) ==> from == c || !created_blocks(b0).contains(from)
        &&& filled_blocks(b1).contains(c)
        &&& !pristine_blocks(b1).contains(c)
        &&& forall|blk: u32| #[trigger]
            created_blocks(b0).contains(blk) && blk != c ==> {
                &&& pristine_blocks(b1).contains(blk) == pristine_blocks(b0).contains(blk)
                &&& filled_blocks(b1).contains(blk) == filled_blocks(b0).contains(blk)
            }
        &&& forall|from: u32, to: u32| #[trigger]
            branch_edges(b1).contains((from, to)) && !branch_edges(b0).contains((from, to)) ==> {
                &&& from == c || !created_blocks(b0).contains(from)
                &&& to == otherwise || entries.values().contains(to) || !created_blocks(
                    b0,
                ).contains(to)
            }
    }
    &&& current_block(b1) matches Some(c1) && created_blocks(b1).contains(c1) && filled_blocks(
        b1,
    ).contains(c1)
    &&& created_blocks(b0).subset_of(created_blocks(b1))
    &&& defined_values(b0).subset_of(defined_values(b1))
    &&& branch_edges(b0).subset_of(branch_edges(b1))
    &&& zero_tests(b0).subset_of(zero_tests(b1))
    &&& return_values(b1) == return_values(b0)
    &&& forall|blk: u32|
        #[trigger] created_blocks(b1).contains(blk) && !created_blocks(b0).contains(blk) ==> {
            &&& filled_blocks(b1).contains(blk)
            &&& !pristine_blocks(b1).contains(blk)
        }
}

/// `FunctionBuilder::create_block`: hands out a block that did not exist,
/// marks it empty and unterminated, and touches nothing else. Cranelift
/// numbers blocks from zero and keeps `u32::MAX` to mean no block.
#[verifier::external_body]
pub(crate) fn create_block(builder: &mut FunctionBuilder) -> (r: Block)
    ensures
        r.0 != u32::MAX,
        !created_blocks(*old(builder)).contains(r.0),
        created_blocks(*final(builder)) == created_blocks(*old(builder)).insert(r.0),
        pristine_blocks(*final(builder)) == pristine_blocks(*old(builder)).insert(r.0),
        filled_blocks(*final(builder)) == filled_blocks(*old(builder)),
        !filled_blocks(*final(builder)).contains(r.0),
        current_block(*final(builder)) == current_block(*old(builder)),
        defined_values(*final(builder)) == defined_values(*old(builder)),
        branch_edges(*final(builder)) == branch_edges(*old(builder)),
        zero_tests(*final(builder)) == zero_tests(*old(builder)),
        return_values(*final(builder)) == return_values(*old(builder)),
        dispatches(*final(builder)) == dispatches(*old(builder)),
{
    Block(builder.create_block().as_u32())
}

/// `FunctionBuilder::switch_to_block`: makes `block` the current block and
/// touches nothing else. Cranelift asserts that the block left behind is
/// empty or terminated and that `block` is not terminated.
#[verifier::external_body]
pub(crate) fn switch_to_block(builder: &mut FunctionBuilder, block: Block)
    requires
        created_blocks(*old(builder)).contains(block.0),
        !filled_blocks(*old(builder)).contains(block.0),
        current_block(*old(builder)) matches Some(c) ==> pristine_blocks(*old(builder)).contains(c)
            || filled_blocks(*old(builder)).contains(c),
    ensures
        moved(*old(builder), *final(builder)),
        current_block(*final(builder)) == Some(block.0),
{
    builder.switch_to_block(cranelift::prelude::Block::from_u32(block.0))
}

/// `FunctionBuilder::is_filled`: whether the current block has its
/// terminator. Cranelift unwraps the current block.
#[verifier::external_body]
pub(crate) fn is_filled(builder: &FunctionBuilder) -> (r: bool)
    requires
        current_block(*builder).is_some(),
    ensures
        r == filled_now(*builder),
{
    builder.is_filled()
}

/// `FunctionBuilder::is_pristine`: whether the current block has no
/// instruction yet. Cranelift unwraps the current block.
#[verifier::external_body]
pub(crate) fn is_pristine(builder: &FunctionBuilder) -> (r: bool)
    requires
        current_block(*builder).is_some(),
    ensures
        r == pristine_now(*builder),
{
    builder.is_pristine()
}

/// `FunctionBuilder::cursor` followed by `Cursor::current_block`: the
/// current block. Taking the cursor puts the block into the function's
/// layout, after which Cranelift no longer counts it as empty.
#[verifier::external_body]
pub(crate) fn insert_current_block(builder: &mut FunctionBuilder) -> (r: Option<Block>)
    requires
        current_block(*old(builder)) matches Some(c) && !filled_blocks(*old(builder)).contains(c),
    ensures
        r matches Some(blk) && Some(blk.0) == current_block(*old(builder)),
        r != Some(Block(u32::MAX)),
        appended(*old(builder), *final(builder)),
        branch_edges(*final(builder)) == branch_edges(*old(builder)),
        nothing_noted(*old(builder), *final(builder)),
{
    builder.cursor().current_block().map(|b| Block(b.as_u32()))
}

/// `InstBuilder::jump` without arguments: an unconditional jump to
/// `target` ends the current block.
#[verifier::external_body]
pub(crate) fn jump(builder: &mut FunctionBuilder, target: Block)
    requires
        current_block(*old(builder)) matches Some(c) && !filled_blocks(*old(builder)).contains(c),
        created_blocks(*old(builder)).contains(target.0),
    ensures
        terminated(*old(builder), *final(builder)),
        edge_added(*old(builder), *final(builder), target.0),
        nothing_noted(*old(builder), *final(builder)),
{
    builder.ins().jump(cranelift::prelude::Block::from_u32(target.0), &[]);
}

/// `InstBuilder::brz` without arguments: a branch to `target`, taken when
/// `condition` is zero, goes to the current block and does not end it.
#[verifier::external_body]
pub(crate) fn brz(builder: &mut FunctionBuilder, condition: Value, target: Block)
    requires
        current_block(*old(builder)) matches Some(c) && !filled_blocks(*old(builder)).contains(c),
        defined_values(*old(builder)).contains(condition.0),
        created_blocks(*old(builder)).contains(target.0),
    ensures
        appended(*old(builder), *final(builder)),
        edge_added(*old(builder), *final(builder), target.0),
        zero_test_added(*old(builder), *final(builder), condition.0, target.0),
{
    builder.ins().brz(
        cranelift::prelude::Value::from_u32(condition.0),
        cranelift::prelude::Block::from_u32(target.0),
        &[],
    );
}

/// `InstBuilder::return_`: a return of `values` ends the current block and
/// leads to no other block.
#[verifier::external_body]
pub(crate) fn return_(builder: &mut FunctionBuilder, values: &Vec<Value>)
    requires
        current_block(*old(builder)) matches Some(c) && !filled_blocks(*old(builder)).contains(c),
        forall|i: int|
            0 <= i < values@.len() ==> defined_values(*old(builder)).contains(
                (#[trigger] values@[i]).0,
            ),
    ensures
        terminated(*old(builder), *final(builder)),
        branch_edges(*final(builder)) == branch_edges(*old(builder)),
        return_added(*old(builder), *final(builder), values@),
{
    let values: Vec<cranelift::prelude::Value> =
        values.iter().map(|v| cranelift::prelude::Value::from_u32(v.0)).collect();
    builder.ins().return_(&values);
}

/// `InstBuilder::iconst` at the type `I32`: an instruction that defines
/// the returned value goes to the current block and does not end it.
#[verifier::external_body]
pub(crate) fn iconst(builder: &mut FunctionBuilder, constant: i64) -> (r: Value)
    requires
        current_block(*old(builder)) matches Some(c) && !filled_blocks(*old(builder)).contains(c),
    ensures
        appended(*old(builder), *final(builder)),
        branch_edges(*final(builder)) == branch_edges(*old(builder)),
        nothing_noted(*old(builder), *final(builder)),
        defined_values(*final(builder)).contains(r.0),
{
    Value(builder.ins().iconst(cranelift::prelude::types::I32, constant).as_u32())
}

/// `Switch::new`: a jump table without entries.
#[verifier::external_body]
pub(crate) fn new_switch() -> (r: Switch)
    ensures
        switch_entries(r) == (Map::<u64, u32>::empty()),
{
    Switch::new()
}

/// `Switch::entries` followed by `HashMap::contains_key`: whether the
/// table has an entry for `index`.
#[verifier::external_body]
pub(crate) fn has_entry(table: &Switch, index: u64) -> (r: bool)
    ensures
        r == switch_entries(*table).contains_key(index),
{
    table.entries().contains_key(&index)
}

/// `Switch::set_entry`: adds the entry. Cranelift asserts that `index` had
/// none.
#[verifier::external_body]
pub(crate) fn set_entry(table: &mut Switch, index: u64, block: Block)
    requires
        !switch_entries(*old(table)).contains_key(index),
        block.0 != u32::MAX,
    ensures
        switch_entries(*final(table)) == switch_entries(*old(table)).insert(index, block.0),
{
    table.set_entry(index, cranelift::prelude::Block::from_u32(block.0))
}

/// `Switch::emit`: writes the dispatch on `scrutinee` into the current
/// block and into blocks of its own making. It ends on a terminated block,
/// leaves every block of its own terminated, leaves the other blocks as they
/// were, and every way out that it adds starts in the dispatch and ends in
/// the dispatch, in the block of an entry or in `otherwise`. It may branch
/// on zero in its own blocks, and it returns nowhere.
#[verifier::external_body]
pub(crate) fn emit_switch(
    table: Switch,
    builder: &mut FunctionBuilder,
    scrutinee: Value,
    otherwise: Block,
)
    requires
        current_block(*old(builder)) matches Some(c) && !filled_blocks(*old(builder)).contains(c),
        defined_values(*old(builder)).contains(scrutinee.0),
        created_blocks(*old(builder)).contains(otherwise.0),
        forall|k: u64| #[trigger]
            switch_entries(table).contains_key(k) ==> created_blocks(*old(builder)).contains(
                switch_entries(table)[k],
            ),
    ensures
        emitted(
            *old(builder),
            *final(builder),
            scrutinee.0,
            switch_entries(table),
            otherwise.0,
        ),
{
    table.emit(
        builder,
        cranelift::prelude::Value::from_u32(scrutinee.0),
        cranelift::prelude::Block::from_u32(otherwise.0),
    )
}

} // verus!
