use cranelift::codegen::ir::instructions::BranchInfo;
use cranelift::codegen::ir::Function;
use cranelift::codegen::ir::Opcode;
use cranelift::frontend::FunctionBuilder;
use cranelift::frontend::FunctionBuilderContext;
use stmt_lowering::data::error::CompileError;
use stmt_lowering::data::error::CompileResult;
use stmt_lowering::data::error::Error;
use stmt_lowering::data::error::SemanticError;
use stmt_lowering::data::location::Locatable;
use stmt_lowering::data::location::Location;
use stmt_lowering::data::stmt::Stmt;
use stmt_lowering::data::stmt::StmtType;
use cranelift::codegen::ir::types::I32;
use cranelift::prelude::InstBuilder;
use stmt_lowering::data::error::ErrorHandler;
use stmt_lowering::data::error::LexError;
use stmt_lowering::ir::builder::Block;
use stmt_lowering::ir::builder::Value;
use stmt_lowering::ir::labels::LabelMap;
use stmt_lowering::ir::literal::Literals;
use stmt_lowering::ir::Compiler;
use stmt_lowering::ir::SubLowerer;

type S = Stmt<i64, ()>;

/// One block of a lowered function: its number, the opcodes of its
/// instructions, and the blocks that its instructions may jump to.
#[derive(Debug, PartialEq)]
struct BlockShape {
    number: u32,
    opcodes: Vec<Opcode>,
    targets: Vec<u32>,
}

/// What lowering a function body left behind.
struct Lowered {
    result: CompileResult<()>,
    diagnostics: Vec<CompileError>,
    blocks: Vec<BlockShape>,
    entry: u32,
    ends_filled: bool,
    loops_left: usize,
    switches_left: usize,
    last_saw_loop: bool,
}

impl Lowered {
    fn block(&self, number: u32) -> &BlockShape {
        self.blocks
            .iter()
            .find(|b| b.number == number)
            .unwrap_or_else(|| panic!("block{} is not in the layout", number))
    }

    fn has_opcode(&self, opcode: Opcode) -> bool {
        self.blocks.iter().any(|b| b.opcodes.contains(&opcode))
    }

    fn predecessors(&self, number: u32) -> Vec<u32> {
        self.blocks
            .iter()
            .filter(|b| b.targets.contains(&number))
            .map(|b| b.number)
            .collect()
    }
}

fn at(line: u32) -> Location {
    Location {
        file: 0,
        line,
        column: 1,
    }
}

fn stmt(line: u32, data: StmtType<i64, ()>) -> S {
    Locatable {
        data,
        location: at(line),
    }
}

fn expr(line: u32, value: i64) -> Locatable<i64> {
    Locatable {
        data: value,
        location: at(line),
    }
}

fn boxed(s: S) -> Option<Box<S>> {
    Some(Box::new(s))
}

fn semantic(line: u32, error: SemanticError) -> CompileError {
    Locatable {
        data: Error::Semantic(error),
        location: at(line),
    }
}

fn shapes(func: &Function) -> Vec<BlockShape> {
    let mut blocks = Vec::new();
    for block in func.layout.blocks() {
        let mut opcodes = Vec::new();
        let mut targets = Vec::new();
        for inst in func.layout.block_insts(block) {
            opcodes.push(func.dfg[inst].opcode());
            match func.dfg[inst].analyze_branch(&func.dfg.value_lists) {
                BranchInfo::NotABranch => {}
                BranchInfo::SingleDest(to, _) => targets.push(to.as_u32()),
                BranchInfo::Table(table, default) => {
                    for to in func.jump_tables[table].iter() {
                        targets.push(to.as_u32());
                    }
                    if let Some(to) = default {
                        targets.push(to.as_u32());
                    }
                }
            }
        }
        blocks.push(BlockShape {
            number: block.as_u32(),
            opcodes,
            targets,
        });
    }
    blocks
}

/// A sub-lowerer that fails on the expression `-1` and on the declaration
/// `-1`, and reports the expression `-2` to the collector while going on
/// with a fallback.
struct Picky;

impl SubLowerer for Picky {
    type Expr = i64;
    type Decl = i64;

    fn compile_expr(
        &mut self,
        expr: Locatable<i64>,
        builder: &mut FunctionBuilder,
        errors: &mut ErrorHandler,
    ) -> CompileResult<Value> {
        if expr.data == -1 {
            return Err(expr.location.error(SemanticError::DivideByZero));
        }
        if expr.data == -2 {
            errors.push_back(expr.location.error(LexError::UnterminatedComment));
        }
        Ok(Value(builder.ins().iconst(I32, expr.data).as_u32()))
    }

    fn declare_stack(
        &mut self,
        decl: i64,
        location: Location,
        builder: &mut FunctionBuilder,
        _errors: &mut ErrorHandler,
    ) -> CompileResult<()> {
        if decl == -1 {
            return Err(location.error(SemanticError::EmptyProgram));
        }
        builder.ins().iconst(I32, decl);
        Ok(())
    }
}

/// Every block that holds instructions ends in its one terminator, but
/// for the block that lowering stopped in.
fn check_blocks(func: &Function, ends_filled: bool) {
    let mut open = 0;
    for block in func.layout.blocks() {
        let insts: Vec<_> = func.layout.block_insts(block).collect();
        if insts.is_empty() {
            // a block that `case` took before anything was lowered into it
            open += 1;
        }
        for (i, inst) in insts.iter().enumerate() {
            let terminator = func.dfg[*inst].opcode().is_terminator();
            if i + 1 < insts.len() {
                assert!(!terminator, "{} goes on after its terminator", block);
            } else if !terminator {
                open += 1;
            }
        }
    }
    assert!(open <= 1, "{} blocks were left without terminator", open);
    if ends_filled {
        assert_eq!(open, 0);
    }
}

fn lower(stmts: Vec<S>) -> Lowered {
    lower_with(Literals, stmts)
}

fn lower_with<L: SubLowerer>(sub: L, stmts: Vec<Stmt<L::Expr, L::Decl>>) -> Lowered {
    let mut func = Function::new();
    let mut context = FunctionBuilderContext::new();
    let mut builder = FunctionBuilder::new(&mut func, &mut context);
    let entry = builder.create_block();
    builder.switch_to_block(entry);
    let mut compiler = Compiler::new(sub);
    let result = compiler.compile_all(stmts, &mut builder);
    let ends_filled = builder.is_filled();
    check_blocks(&func, ends_filled);
    let mut diagnostics = Vec::new();
    while let Some(e) = compiler.error_handler.pop_front() {
        diagnostics.push(e);
    }
    Lowered {
        result,
        diagnostics,
        blocks: shapes(&func),
        entry: entry.as_u32(),
        ends_filled,
        loops_left: compiler.loops.len(),
        switches_left: compiler.switches.len(),
        last_saw_loop: compiler.last_saw_loop,
    }
}

#[test]
fn statement_after_both_branches_returned_is_unreachable() {
    // int main() { if (1) return 0; else return 1; 2; }
    let lowered = lower(vec![
        stmt(
            1,
            StmtType::If(
                expr(1, 1),
                Box::new(stmt(2, StmtType::Return(Some(expr(2, 0))))),
                boxed(stmt(3, StmtType::Return(Some(expr(3, 1))))),
            ),
        ),
        stmt(4, StmtType::Expr(expr(4, 2))),
    ]);
    assert_eq!(
        lowered.result,
        Err(semantic(4, SemanticError::UnreachableStatement))
    );
    assert!(lowered.diagnostics.is_empty());
    // entry, if-body and else-body; the block after the `if` was never used
    assert_eq!(lowered.blocks.len(), 3);
    let entry = lowered.block(lowered.entry);
    assert_eq!(entry.opcodes, vec![Opcode::Iconst, Opcode::Brz, Opcode::Jump]);
    let else_body = entry.targets[0];
    let if_body = entry.targets[1];
    assert_eq!(
        lowered.block(if_body).opcodes,
        vec![Opcode::Iconst, Opcode::Return]
    );
    assert_eq!(
        lowered.block(else_body).opcodes,
        vec![Opcode::Iconst, Opcode::Return]
    );
    assert!(lowered.block(if_body).targets.is_empty());
    assert!(lowered.block(else_body).targets.is_empty());
}

#[test]
fn for_loop_has_header_body_back_edge_and_end() {
    // int main() { for (int i=0; i<10; i=i+1) { } }
    let lowered = lower(vec![stmt(
        1,
        StmtType::For(
            boxed(stmt(1, StmtType::Decl(vec![Locatable { data: (), location: at(1) }]))),
            Some(Box::new(expr(1, 10))),
            Some(Box::new(expr(1, 1))),
            boxed(stmt(1, StmtType::Compound(vec![]))),
        ),
    )]);
    assert_eq!(lowered.result, Ok(()));
    assert!(lowered.diagnostics.is_empty());
    assert!(!lowered.ends_filled);
    let entry = lowered.block(lowered.entry);
    assert_eq!(entry.opcodes, vec![Opcode::Jump]);
    let header = entry.targets[0];
    assert_eq!(
        lowered.block(header).opcodes,
        vec![Opcode::Iconst, Opcode::Brz, Opcode::Jump]
    );
    let end = lowered.block(header).targets[0];
    let body = lowered.block(header).targets[1];
    // the body holds the post-expression and jumps back to the header
    assert_eq!(
        lowered.block(body).opcodes,
        vec![Opcode::Iconst, Opcode::Jump]
    );
    assert_eq!(lowered.block(body).targets, vec![header]);
    // the end block is where lowering goes on; nothing is in it yet
    assert!(lowered.blocks.iter().all(|b| b.number != end));
    assert_eq!(lowered.blocks.len(), 3);
}

fn compound(line: u32, stmts: Vec<S>) -> S {
    stmt(line, StmtType::Compound(stmts))
}

fn empty(line: u32) -> S {
    compound(line, vec![])
}

fn ret(line: u32) -> S {
    stmt(line, StmtType::Return(None))
}

fn unreachable_at(line: u32) -> CompileError {
    semantic(line, SemanticError::UnreachableStatement)
}

fn generic(line: u32, text: &str) -> CompileError {
    semantic(line, SemanticError::Generic(text.to_string()))
}

#[test]
fn duplicate_case_is_reported_at_the_second_case() {
    // int f(int x) { switch (x) { case 1: return 1; case 1: return 2; default: return 0; } }
    let lowered = lower(vec![stmt(
        1,
        StmtType::Switch(
            expr(1, 5),
            Box::new(compound(
                1,
                vec![
                    stmt(2, StmtType::Case(1, boxed(stmt(2, StmtType::Return(Some(expr(2, 1))))))),
                    stmt(3, StmtType::Case(1, boxed(stmt(3, StmtType::Return(Some(expr(3, 2))))))),
                    stmt(4, StmtType::Default(boxed(stmt(4, StmtType::Return(Some(expr(4, 0))))))),
                ],
            )),
        ),
    )]);
    assert_eq!(
        lowered.result,
        Err(semantic(3, SemanticError::DuplicateCase { is_default: false }))
    );
    assert!(lowered.diagnostics.is_empty());
    // the context of the `switch` is released on the way out
    assert_eq!(lowered.switches_left, 0);
    assert!(lowered.last_saw_loop);
}

#[test]
fn break_in_switch_goes_to_the_end_of_the_switch() {
    // int f(int x) { switch (x) { case 1: break; } return x; }
    let lowered = lower(vec![
        stmt(
            1,
            StmtType::Switch(
                expr(1, 5),
                Box::new(compound(
                    1,
                    vec![stmt(2, StmtType::Case(1, boxed(stmt(2, StmtType::Break))))],
                )),
            ),
        ),
        stmt(3, StmtType::Return(Some(expr(3, 5)))),
    ]);
    assert_eq!(lowered.result, Ok(()));
    assert!(lowered.diagnostics.is_empty());
    assert!(lowered.ends_filled);
    assert_eq!(lowered.loops_left, 0);
    assert_eq!(lowered.switches_left, 0);
    // entry evaluates the condition and jumps to the dispatch
    let entry = lowered.block(lowered.entry);
    assert_eq!(entry.opcodes, vec![Opcode::Iconst, Opcode::Jump]);
    let dispatch = lowered.block(entry.targets[0]);
    // one case: compare, branch to the case, else jump to the end
    assert_eq!(
        dispatch.opcodes,
        vec![Opcode::IcmpImm, Opcode::Brnz, Opcode::Jump]
    );
    let case = dispatch.targets[0];
    let end = dispatch.targets[1];
    // the case holds the `break`: one jump, to the end of the switch
    assert_eq!(lowered.block(case).opcodes, vec![Opcode::Jump]);
    assert_eq!(lowered.block(case).targets, vec![end]);
    // what follows the switch is lowered into its end
    assert_eq!(
        lowered.block(end).opcodes,
        vec![Opcode::Iconst, Opcode::Return]
    );
    let mut into_end = lowered.predecessors(end);
    into_end.sort();
    let mut expected = vec![case, dispatch.number];
    expected.sort();
    assert_eq!(into_end, expected);
}

#[test]
fn label_block_jumps_to_itself() {
    // int f() { L: goto L; }
    let lowered = lower(vec![stmt(
        1,
        StmtType::Label(
            "L".to_string(),
            boxed(stmt(1, StmtType::Goto("L".to_string()))),
        ),
    )]);
    assert_eq!(lowered.result, Ok(()));
    assert!(lowered.diagnostics.is_empty());
    let entry = lowered.block(lowered.entry);
    assert_eq!(entry.opcodes, vec![Opcode::Jump]);
    let label = entry.targets[0];
    assert_ne!(label, lowered.entry);
    assert_eq!(lowered.block(label).opcodes, vec![Opcode::Jump]);
    assert_eq!(lowered.block(label).targets, vec![label]);
}

#[test]
fn goto_without_label_is_an_error() {
    // int f() { goto Z; }
    let lowered = lower(vec![stmt(1, StmtType::Goto("Z".to_string()))]);
    assert_eq!(
        lowered.result,
        Err(semantic(1, SemanticError::UndeclaredLabel("Z".to_string())))
    );
    assert!(lowered.diagnostics.is_empty());
    assert!(lowered.blocks.is_empty());
}

#[test]
fn endless_for_has_no_condition_branch() {
    // for (;;) {}
    let lowered = lower(vec![stmt(
        1,
        StmtType::For(None, None, None, boxed(empty(1))),
    )]);
    assert_eq!(lowered.result, Ok(()));
    assert!(!lowered.has_opcode(Opcode::Brz));
    assert!(!lowered.has_opcode(Opcode::Brnz));
    let entry = lowered.block(lowered.entry);
    assert_eq!(entry.opcodes, vec![Opcode::Jump]);
    let body = entry.targets[0];
    assert_eq!(lowered.block(body).opcodes, vec![Opcode::Jump]);
    assert_eq!(lowered.block(body).targets, vec![body]);
    // nothing leads to the block after the loop, and nothing is in it
    assert_eq!(lowered.blocks.len(), 2);
    assert!(!lowered.ends_filled);
}

#[test]
fn endless_for_without_body_has_no_condition_branch() {
    // for (;;);
    let lowered = lower(vec![stmt(1, StmtType::For(None, None, None, None))]);
    assert_eq!(lowered.result, Ok(()));
    assert!(!lowered.has_opcode(Opcode::Brz));
    let body = lowered.block(lowered.entry).targets[0];
    assert_eq!(lowered.block(body).targets, vec![body]);
}

#[test]
fn returning_do_body_makes_the_condition_unreachable() {
    // do { return; } while (e)
    let lowered = lower(vec![stmt(
        1,
        StmtType::Do(Box::new(compound(1, vec![ret(2)])), expr(3, 1)),
    )]);
    assert_eq!(lowered.result, Err(unreachable_at(3)));
    assert!(lowered.diagnostics.is_empty());
    assert_eq!(lowered.loops_left, 0);
    assert!(lowered.last_saw_loop);
}

#[test]
fn do_loop_tests_after_the_body() {
    // do { 7; } while (1);
    let lowered = lower(vec![stmt(
        1,
        StmtType::Do(Box::new(stmt(2, StmtType::Expr(expr(2, 7)))), expr(3, 1)),
    )]);
    assert_eq!(lowered.result, Ok(()));
    let entry = lowered.block(lowered.entry);
    assert_eq!(entry.opcodes, vec![Opcode::Jump]);
    let body = lowered.block(entry.targets[0]);
    assert_eq!(
        body.opcodes,
        vec![Opcode::Iconst, Opcode::Iconst, Opcode::Brz, Opcode::Jump]
    );
    // on zero to the end, else back to the body
    assert_eq!(body.targets[1], body.number);
    assert_ne!(body.targets[0], body.number);
    assert!(!lowered.ends_filled);
}

#[test]
fn continue_in_switch_outside_a_loop_is_an_error() {
    // switch (x) { case 1: continue; }
    let lowered = lower(vec![stmt(
        1,
        StmtType::Switch(
            expr(1, 5),
            Box::new(stmt(2, StmtType::Case(1, boxed(stmt(3, StmtType::Continue))))),
        ),
    )]);
    assert_eq!(lowered.result, Err(generic(3, "'continue' not in loop")));
    assert_eq!(lowered.switches_left, 0);
    assert!(lowered.last_saw_loop);
}

#[test]
fn break_and_continue_outside_loop_and_switch_are_errors() {
    let lowered = lower(vec![stmt(1, StmtType::Break)]);
    assert_eq!(
        lowered.result,
        Err(generic(
            1,
            "'break' statement not in loop or switch statement"
        ))
    );
    assert!(lowered.blocks.is_empty());
    let lowered = lower(vec![stmt(2, StmtType::Continue)]);
    assert_eq!(
        lowered.result,
        Err(generic(
            2,
            "'continue' statement not in loop or switch statement"
        ))
    );
    assert!(lowered.blocks.is_empty());
}

#[test]
fn statement_after_return_is_unreachable() {
    let lowered = lower(vec![ret(1), stmt(2, StmtType::Expr(expr(2, 1)))]);
    assert_eq!(lowered.result, Err(unreachable_at(2)));
    assert_eq!(
        lowered.block(lowered.entry).opcodes,
        vec![Opcode::Return]
    );
    // also one that would do nothing
    let lowered = lower(vec![ret(1), empty(2)]);
    assert_eq!(lowered.result, Err(unreachable_at(2)));
    let lowered = lower(vec![
        stmt(1, StmtType::Return(Some(expr(1, 3)))),
        ret(2),
    ]);
    assert_eq!(lowered.result, Err(unreachable_at(2)));
}

#[test]
fn statement_after_break_continue_goto_is_unreachable() {
    for exit in 0..3 {
        let leave = match exit {
            0 => stmt(2, StmtType::Break),
            1 => stmt(2, StmtType::Continue),
            _ => stmt(2, StmtType::Goto("top".to_string())),
        };
        let lowered = lower(vec![stmt(
            1,
            StmtType::Label(
                "top".to_string(),
                boxed(stmt(
                    1,
                    StmtType::While(
                        expr(1, 1),
                        boxed(compound(1, vec![leave, stmt(3, StmtType::Expr(expr(3, 9)))])),
                    ),
                )),
            ),
        )]);
        assert_eq!(lowered.result, Err(unreachable_at(3)));
        assert_eq!(lowered.loops_left, 0);
    }
}

#[test]
fn jump_targets_after_return_are_accepted() {
    // return; L: ;
    let lowered = lower(vec![
        ret(1),
        stmt(2, StmtType::Label("L".to_string(), boxed(empty(2)))),
        ret(3),
    ]);
    assert_eq!(lowered.result, Ok(()));
    // the label block has no way in: the block before it was terminated
    assert_eq!(lowered.blocks.len(), 2);
    let label = lowered.blocks[1].number;
    assert!(lowered.predecessors(label).is_empty());
    assert_eq!(lowered.block(lowered.entry).opcodes, vec![Opcode::Return]);

    // switch (x) { case 1: return; case 2: return; default: return; }
    let lowered = lower(vec![stmt(
        1,
        StmtType::Switch(
            expr(1, 5),
            Box::new(compound(
                1,
                vec![
                    stmt(2, StmtType::Case(1, boxed(ret(2)))),
                    stmt(3, StmtType::Case(2, boxed(ret(3)))),
                    stmt(4, StmtType::Default(boxed(ret(4)))),
                ],
            )),
        ),
    )]);
    assert_eq!(lowered.result, Ok(()));
    assert!(lowered.diagnostics.is_empty());
}

#[test]
fn label_redeclaration_is_reported_and_lowering_goes_on() {
    // L: ; L: 1; 2;
    let lowered = lower(vec![
        stmt(1, StmtType::Label("L".to_string(), None)),
        stmt(
            2,
            StmtType::Label("L".to_string(), boxed(stmt(2, StmtType::Expr(expr(2, 1))))),
        ),
        stmt(3, StmtType::Expr(expr(3, 2))),
    ]);
    assert_eq!(lowered.result, Ok(()));
    let first = lowered.block(lowered.entry).targets[0];
    assert_eq!(
        lowered.diagnostics,
        vec![semantic(2, SemanticError::LabelRedeclaration(Block(first)))]
    );
    // the second label still got its block, and what it labels was skipped
    let second = lowered.block(first).targets[0];
    assert_ne!(second, first);
    assert_eq!(lowered.block(second).opcodes, vec![Opcode::Iconst]);
}

#[test]
fn case_and_default_need_a_switch() {
    let lowered = lower(vec![stmt(1, StmtType::Case(1, None))]);
    assert_eq!(
        lowered.result,
        Err(semantic(1, SemanticError::CaseOutsideSwitch { is_default: false }))
    );
    let lowered = lower(vec![stmt(2, StmtType::Default(None))]);
    assert_eq!(
        lowered.result,
        Err(semantic(2, SemanticError::CaseOutsideSwitch { is_default: true }))
    );
    // a loop inside a switch does not hide the switch
    let lowered = lower(vec![stmt(
        1,
        StmtType::Switch(
            expr(1, 5),
            Box::new(stmt(
                2,
                StmtType::While(expr(2, 1), boxed(stmt(3, StmtType::Case(4, None)))),
            )),
        ),
    )]);
    assert_eq!(lowered.result, Ok(()));
}

#[test]
fn second_default_is_a_duplicate() {
    let lowered = lower(vec![stmt(
        1,
        StmtType::Switch(
            expr(1, 5),
            Box::new(compound(
                1,
                vec![
                    stmt(2, StmtType::Default(boxed(ret(2)))),
                    stmt(3, StmtType::Default(None)),
                ],
            )),
        ),
    )]);
    assert_eq!(
        lowered.result,
        Err(semantic(3, SemanticError::DuplicateCase { is_default: true }))
    );
    assert_eq!(lowered.switches_left, 0);
}

#[test]
fn duplicate_case_on_an_empty_block_is_reported_too() {
    // switch (x) { case 1: ; L: case 1: ; }
    let lowered = lower(vec![stmt(
        1,
        StmtType::Switch(
            expr(1, 5),
            Box::new(compound(
                1,
                vec![
                    stmt(2, StmtType::Case(1, boxed(empty(2)))),
                    stmt(
                        3,
                        StmtType::Label("L".to_string(), boxed(stmt(4, StmtType::Case(1, None)))),
                    ),
                ],
            )),
        ),
    )]);
    assert_eq!(
        lowered.result,
        Err(semantic(4, SemanticError::DuplicateCase { is_default: false }))
    );
}

#[test]
fn case_on_an_empty_block_takes_that_block() {
    // switch (x) { case 1: case 2: return; }
    let lowered = lower(vec![stmt(
        1,
        StmtType::Switch(
            expr(1, 5),
            Box::new(stmt(
                2,
                StmtType::Case(1, boxed(stmt(3, StmtType::Case(2, boxed(ret(3)))))),
            )),
        ),
    )]);
    assert_eq!(lowered.result, Ok(()));
    let dispatch = lowered.block(lowered.block(lowered.entry).targets[0]);
    // `case 1` stands for the first block of the body, which runs into
    // the block of `case 2`
    let body_start = lowered
        .blocks
        .iter()
        .find(|b| b.targets.len() == 1 && b.opcodes == vec![Opcode::Jump] && b.number != lowered.entry)
        .unwrap();
    let second = body_start.targets[0];
    assert_eq!(lowered.block(second).opcodes, vec![Opcode::Return]);
    assert!(lowered.predecessors(body_start.number).len() >= 1);
    assert!(lowered.predecessors(second).contains(&body_start.number));
    assert!(dispatch.opcodes.len() >= 2);
    let mut reached = Vec::new();
    for b in &lowered.blocks {
        if b.number != body_start.number {
            for t in &b.targets {
                reached.push(*t);
            }
        }
    }
    assert!(reached.contains(&body_start.number));
    assert!(reached.contains(&second));
}

#[test]
fn default_is_where_the_dispatch_falls_back() {
    // switch (x) { default: return; }
    let lowered = lower(vec![stmt(
        1,
        StmtType::Switch(expr(1, 5), Box::new(stmt(2, StmtType::Default(boxed(ret(2)))))),
    )]);
    assert_eq!(lowered.result, Ok(()));
    let dispatch = lowered.block(lowered.block(lowered.entry).targets[0]);
    assert_eq!(dispatch.opcodes, vec![Opcode::Jump]);
    let default = dispatch.targets[0];
    assert_eq!(lowered.block(default).opcodes, vec![Opcode::Return]);
    assert!(!lowered.ends_filled);
}

#[test]
fn if_without_else_joins_at_the_end() {
    // if (1) 2; 3;
    let lowered = lower(vec![
        stmt(
            1,
            StmtType::If(expr(1, 1), Box::new(stmt(2, StmtType::Expr(expr(2, 2)))), None),
        ),
        stmt(3, StmtType::Expr(expr(3, 3))),
    ]);
    assert_eq!(lowered.result, Ok(()));
    let entry = lowered.block(lowered.entry);
    assert_eq!(entry.opcodes, vec![Opcode::Iconst, Opcode::Brz, Opcode::Jump]);
    let end = entry.targets[0];
    let then = entry.targets[1];
    assert_eq!(lowered.block(then).opcodes, vec![Opcode::Iconst, Opcode::Jump]);
    assert_eq!(lowered.block(then).targets, vec![end]);
    assert_eq!(lowered.block(end).opcodes, vec![Opcode::Iconst]);
}

#[test]
fn if_joins_at_the_end_unless_both_branches_terminate() {
    // then returns, else does not: what follows is reachable
    let lowered = lower(vec![
        stmt(
            1,
            StmtType::If(
                expr(1, 1),
                Box::new(ret(2)),
                boxed(stmt(3, StmtType::Expr(expr(3, 3)))),
            ),
        ),
        stmt(4, StmtType::Expr(expr(4, 4))),
    ]);
    assert_eq!(lowered.result, Ok(()));
    let entry = lowered.block(lowered.entry);
    let otherwise = entry.targets[0];
    let end = lowered.block(otherwise).targets[0];
    assert_eq!(lowered.block(end).opcodes, vec![Opcode::Iconst]);
    assert_eq!(lowered.predecessors(end), vec![otherwise]);

    // else returns, then does not: what follows is reachable
    let lowered = lower(vec![
        stmt(
            1,
            StmtType::If(
                expr(1, 1),
                Box::new(stmt(2, StmtType::Expr(expr(2, 2)))),
                boxed(ret(3)),
            ),
        ),
        stmt(4, StmtType::Expr(expr(4, 4))),
    ]);
    assert_eq!(lowered.result, Ok(()));
    let entry = lowered.block(lowered.entry);
    let then = entry.targets[1];
    let end = lowered.block(then).targets[0];
    assert_eq!(lowered.block(end).opcodes, vec![Opcode::Iconst]);
    assert_eq!(lowered.predecessors(end), vec![then]);

    // both return: a jump target may still follow
    let lowered = lower(vec![
        stmt(1, StmtType::If(expr(1, 1), Box::new(ret(2)), boxed(ret(3)))),
        stmt(4, StmtType::Label("after".to_string(), None)),
    ]);
    assert_eq!(lowered.result, Ok(()));
}

#[test]
fn while_loop_shape_and_exits() {
    // while (1) { if (2) break; continue; }
    let lowered = lower(vec![stmt(
        1,
        StmtType::While(
            expr(1, 1),
            boxed(compound(
                1,
                vec![
                    stmt(2, StmtType::If(expr(2, 2), Box::new(stmt(2, StmtType::Break)), None)),
                    stmt(3, StmtType::Continue),
                ],
            )),
        ),
    )]);
    assert_eq!(lowered.result, Ok(()));
    assert_eq!(lowered.loops_left, 0);
    let header = lowered.block(lowered.entry).targets[0];
    assert_eq!(
        lowered.block(header).opcodes,
        vec![Opcode::Iconst, Opcode::Brz, Opcode::Jump]
    );
    let end = lowered.block(header).targets[0];
    let body = lowered.block(lowered.block(header).targets[1]);
    assert_eq!(body.opcodes, vec![Opcode::Iconst, Opcode::Brz, Opcode::Jump]);
    let after_if = body.targets[0];
    let then = body.targets[1];
    // break leaves for the block after the loop
    assert_eq!(lowered.block(then).targets, vec![end]);
    // continue goes back to the test
    assert_eq!(lowered.block(after_if).opcodes, vec![Opcode::Jump]);
    assert_eq!(lowered.block(after_if).targets, vec![header]);
}

#[test]
fn continue_in_for_goes_to_the_start_of_the_loop() {
    // for (;1;2) continue;
    let lowered = lower(vec![stmt(
        1,
        StmtType::For(
            None,
            Some(Box::new(expr(1, 1))),
            Some(Box::new(expr(1, 2))),
            boxed(stmt(2, StmtType::Continue)),
        ),
    )]);
    // the statement made for the post-expression follows the `continue`
    assert_eq!(lowered.result, Err(unreachable_at(1)));
    assert_eq!(lowered.loops_left, 0);
    let header = lowered.block(lowered.entry).targets[0];
    let body = lowered.block(header).targets[1];
    assert_eq!(lowered.block(body).targets, vec![header]);
}

#[test]
fn break_after_a_switch_in_a_loop_leaves_the_loop() {
    // while (1) { switch (2) { case 3: break; } break; }
    let lowered = lower(vec![stmt(
        1,
        StmtType::While(
            expr(1, 1),
            boxed(compound(
                1,
                vec![
                    stmt(
                        2,
                        StmtType::Switch(
                            expr(2, 2),
                            Box::new(stmt(3, StmtType::Case(3, boxed(stmt(3, StmtType::Break))))),
                        ),
                    ),
                    stmt(4, StmtType::Break),
                ],
            )),
        ),
    )]);
    assert_eq!(lowered.result, Ok(()));
    let header = lowered.block(lowered.entry).targets[0];
    let loop_end = lowered.block(header).targets[0];
    let body = lowered.block(lowered.block(header).targets[1]);
    assert_eq!(body.opcodes, vec![Opcode::Iconst, Opcode::Jump]);
    let dispatch = lowered.block(body.targets[0]);
    let case = dispatch.targets[0];
    let switch_end = dispatch.targets[1];
    assert_ne!(switch_end, loop_end);
    assert_eq!(lowered.block(case).targets, vec![switch_end]);
    assert_eq!(lowered.block(switch_end).opcodes, vec![Opcode::Jump]);
    assert_eq!(lowered.block(switch_end).targets, vec![loop_end]);
}

#[test]
fn continue_in_a_switch_in_a_loop_is_an_error() {
    // the innermost construct decides, and it is the switch
    let lowered = lower(vec![stmt(
        1,
        StmtType::While(
            expr(1, 1),
            boxed(stmt(
                2,
                StmtType::Switch(
                    expr(2, 2),
                    Box::new(stmt(3, StmtType::Case(3, boxed(stmt(4, StmtType::Continue))))),
                ),
            )),
        ),
    )]);
    assert_eq!(lowered.result, Err(generic(4, "'continue' not in loop")));
    assert_eq!(lowered.loops_left, 0);
    assert_eq!(lowered.switches_left, 0);
    assert!(lowered.last_saw_loop);
}

#[test]
fn failing_expression_stops_the_statement_and_releases_contexts() {
    let run = |stmts: Vec<Stmt<i64, i64>>| lower_with(Picky, stmts);
    let bad = |line: u32| Locatable {
        data: -1i64,
        location: at(line),
    };
    let good = |line: u32| Locatable {
        data: 1i64,
        location: at(line),
    };
    let failed = |line: u32| Err(semantic(line, SemanticError::DivideByZero));
    let s = |line: u32, data: StmtType<i64, i64>| Locatable {
        data,
        location: at(line),
    };

    let lowered = run(vec![s(1, StmtType::Expr(bad(1)))]);
    assert_eq!(lowered.result, failed(1));
    let lowered = run(vec![s(1, StmtType::Return(Some(bad(2))))]);
    assert_eq!(lowered.result, failed(2));
    assert!(!lowered.ends_filled);
    let lowered = run(vec![s(
        1,
        StmtType::If(bad(3), Box::new(s(1, StmtType::Return(None))), None),
    )]);
    assert_eq!(lowered.result, failed(3));
    let lowered = run(vec![s(1, StmtType::While(bad(4), None))]);
    assert_eq!(lowered.result, failed(4));
    assert_eq!(lowered.loops_left, 0);
    let lowered = run(vec![s(
        1,
        StmtType::While(good(1), Some(Box::new(s(2, StmtType::Expr(bad(5)))))),
    )]);
    assert_eq!(lowered.result, failed(5));
    assert_eq!(lowered.loops_left, 0);
    let lowered = run(vec![s(
        1,
        StmtType::Do(Box::new(s(2, StmtType::Compound(vec![]))), bad(6)),
    )]);
    assert_eq!(lowered.result, failed(6));
    assert_eq!(lowered.loops_left, 0);
    let lowered = run(vec![s(
        1,
        StmtType::Switch(bad(7), Box::new(s(2, StmtType::Compound(vec![])))),
    )]);
    assert_eq!(lowered.result, failed(7));
    let lowered = run(vec![s(
        1,
        StmtType::Switch(
            good(1),
            Box::new(s(2, StmtType::Case(1, Some(Box::new(s(2, StmtType::Expr(bad(8)))))))),
        ),
    )]);
    assert_eq!(lowered.result, failed(8));
    assert_eq!(lowered.switches_left, 0);
    assert!(lowered.last_saw_loop);
    let lowered = run(vec![s(
        1,
        StmtType::For(
            Some(Box::new(s(1, StmtType::Decl(vec![
                Locatable { data: 4, location: at(1) },
                Locatable { data: -1, location: at(9) },
                Locatable { data: 5, location: at(1) },
            ])))),
            None,
            None,
            None,
        ),
    )]);
    assert_eq!(lowered.result, Err(semantic(9, SemanticError::EmptyProgram)));
    assert_eq!(lowered.block(lowered.entry).opcodes, vec![Opcode::Iconst]);
}

#[test]
fn recovered_expression_errors_reach_the_collector_in_order() {
    let s = |line: u32, data: StmtType<i64, i64>| Locatable {
        data,
        location: at(line),
    };
    let lowered = lower_with(
        Picky,
        vec![
            s(1, StmtType::Expr(Locatable { data: -2, location: at(1) })),
            s(2, StmtType::Label("L".to_string(), None)),
            s(3, StmtType::Label("L".to_string(), None)),
            s(4, StmtType::Expr(Locatable { data: -2, location: at(4) })),
        ],
    );
    assert_eq!(lowered.result, Ok(()));
    assert_eq!(lowered.diagnostics.len(), 3);
    assert!(lowered.diagnostics[0].is_lex_err());
    assert_eq!(lowered.diagnostics[0].location(), at(1));
    assert!(lowered.diagnostics[1].is_semantic_err());
    assert_eq!(lowered.diagnostics[1].location(), at(3));
    assert_eq!(lowered.diagnostics[2].location(), at(4));
}

#[test]
fn branch_tests_the_value_of_the_condition() {
    let mut func = Function::new();
    let mut context = FunctionBuilderContext::new();
    let mut builder = FunctionBuilder::new(&mut func, &mut context);
    let entry = builder.create_block();
    builder.switch_to_block(entry);
    let mut compiler = Compiler::new(Literals);
    let result = compiler.if_stmt(expr(1, 41), ret(2), None, &mut builder);
    assert_eq!(result, Ok(()));
    let insts: Vec<_> = func.layout.block_insts(entry).collect();
    assert_eq!(func.dfg[insts[0]].opcode(), Opcode::Iconst);
    assert_eq!(func.dfg[insts[1]].opcode(), Opcode::Brz);
    assert_eq!(func.dfg.inst_args(insts[1])[0], func.dfg.first_result(insts[0]));
}

#[test]
fn jump_to_block_does_nothing_on_a_terminated_block() {
    let mut func = Function::new();
    let mut context = FunctionBuilderContext::new();
    let mut builder = FunctionBuilder::new(&mut func, &mut context);
    let entry = builder.create_block();
    let first = builder.create_block();
    let second = builder.create_block();
    builder.switch_to_block(entry);
    Compiler::<Literals>::jump_to_block(Block(first.as_u32()), &mut builder);
    assert!(builder.is_filled());
    Compiler::<Literals>::jump_to_block(Block(second.as_u32()), &mut builder);
    Compiler::<Literals>::jump_to_block(Block(first.as_u32()), &mut builder);
    let shape = shapes(&func);
    assert_eq!(shape.len(), 1);
    assert_eq!(shape[0].opcodes, vec![Opcode::Jump]);
    assert_eq!(shape[0].targets, vec![first.as_u32()]);
}

#[test]
fn fallthrough_goes_on_in_a_new_block() {
    let mut func = Function::new();
    let mut context = FunctionBuilderContext::new();
    let mut builder = FunctionBuilder::new(&mut func, &mut context);
    let entry = builder.create_block();
    builder.switch_to_block(entry);
    let compiler = Compiler::new(Literals);
    compiler.fallthrough(&mut builder);
    assert!(builder.is_pristine());
    assert!(!builder.is_filled());
    let shape = shapes(&func);
    assert_eq!(shape.len(), 1);
    assert_eq!(shape[0].opcodes, vec![Opcode::Jump]);
    assert_ne!(shape[0].targets[0], entry.as_u32());
}

#[test]
fn entering_and_leaving_a_loop_restores_the_context() {
    for flag in 0..2 {
        let mut func = Function::new();
        let mut context = FunctionBuilderContext::new();
        let mut builder = FunctionBuilder::new(&mut func, &mut context);
        let entry = builder.create_block();
        builder.switch_to_block(entry);
        let mut compiler = Compiler::new(Literals);
        compiler.loops.push((Block(entry.as_u32()), Block(entry.as_u32())));
        if flag == 1 {
            // as inside a `switch`
            let end = builder.create_block();
            compiler.switches.push(stmt_lowering::ir::SwitchContext {
                table: cranelift::frontend::Switch::new(),
                default: None,
                end: Block(end.as_u32()),
            });
            compiler.last_saw_loop = false;
        }
        let before = compiler.last_saw_loop;
        let (body, end, saved) = compiler.enter_loop(&mut builder);
        assert_eq!(saved, before);
        assert!(compiler.last_saw_loop);
        assert_eq!(compiler.loops.len(), 2);
        assert_eq!(compiler.loops[1], (body, end));
        assert_ne!(body, end);
        assert!(builder.is_pristine());
        compiler.exit_loop(saved);
        assert_eq!(compiler.last_saw_loop, before);
        assert_eq!(
            compiler.loops,
            vec![(Block(entry.as_u32()), Block(entry.as_u32()))]
        );
        let shape = shapes(&func);
        assert_eq!(shape[0].opcodes, vec![Opcode::Jump]);
        assert_eq!(shape[0].targets, vec![body.0]);
    }
}

#[test]
fn exit_loop_on_an_empty_stack_only_sets_the_flag() {
    let mut compiler = Compiler::new(Literals);
    compiler.exit_loop(true);
    assert!(compiler.loops.is_empty());
    assert!(compiler.last_saw_loop);
}

#[test]
fn for_body_takes_the_post_expression_last() {
    type C = Compiler<Literals>;
    let post = || stmt(9, StmtType::Expr(expr(7, 70)));
    // a compound body takes it as its last statement
    assert_eq!(
        C::for_body(Some(expr(7, 70)), boxed(compound(2, vec![ret(3)])), at(9)),
        Some(compound(2, vec![ret(3), post()]))
    );
    // another body is put into a compound with it
    assert_eq!(
        C::for_body(Some(expr(7, 70)), boxed(ret(3)), at(9)),
        Some(compound(9, vec![ret(3), post()]))
    );
    // without a body it is the body
    assert_eq!(C::for_body(Some(expr(7, 70)), None, at(9)), Some(post()));
    // without a post-expression the body stays
    assert_eq!(C::for_body(None, boxed(ret(3)), at(9)), Some(ret(3)));
    assert_eq!(C::for_body(None, None, at(9)), None);
}

#[test]
fn jump_targets_are_case_default_and_label() {
    let targets: Vec<StmtType<i64, ()>> = vec![
        StmtType::Case(0, None),
        StmtType::Default(None),
        StmtType::Label("x".to_string(), None),
    ];
    for t in &targets {
        assert!(t.is_jump_target());
    }
    let others: Vec<StmtType<i64, ()>> = vec![
        StmtType::Compound(vec![]),
        StmtType::If(expr(1, 1), Box::new(ret(1)), None),
        StmtType::Do(Box::new(ret(1)), expr(1, 1)),
        StmtType::While(expr(1, 1), None),
        StmtType::For(None, None, None, None),
        StmtType::Switch(expr(1, 1), Box::new(ret(1))),
        StmtType::Expr(expr(1, 1)),
        StmtType::Goto("x".to_string()),
        StmtType::Continue,
        StmtType::Break,
        StmtType::Return(None),
        StmtType::Decl(vec![]),
    ];
    for t in &others {
        assert!(!t.is_jump_target());
    }
}

#[test]
fn label_map_keeps_one_block_per_name() {
    let mut labels = LabelMap::new();
    assert_eq!(labels.get(&"a".to_string()), None);
    assert_eq!(labels.insert("a".to_string(), Block(1)), None);
    assert_eq!(labels.insert("b".to_string(), Block(2)), None);
    assert_eq!(labels.get(&"a".to_string()), Some(Block(1)));
    assert_eq!(labels.insert("a".to_string(), Block(3)), Some(Block(1)));
    assert_eq!(labels.get(&"a".to_string()), Some(Block(3)));
    assert_eq!(labels.get(&"b".to_string()), Some(Block(2)));
    assert_eq!(labels.get(&"".to_string()), None);
}

#[test]
fn empty_sequence_lowers_to_nothing() {
    let lowered = lower(vec![]);
    assert_eq!(lowered.result, Ok(()));
    assert!(lowered.blocks.is_empty());
    let lowered = lower(vec![empty(1), stmt(2, StmtType::Decl(vec![]))]);
    assert_eq!(lowered.result, Ok(()));
    assert!(lowered.blocks.is_empty());
}

#[test]
fn large_switch_keeps_every_block_terminated() {
    // enough scattered cases to make the dispatch build a search tree
    let mut cases = Vec::new();
    for i in 0..12u64 {
        cases.push(stmt(
            2,
            StmtType::Case(i * 10, boxed(stmt(2, StmtType::Break))),
        ));
        cases.push(stmt(2, StmtType::Case(i * 10 + 1, boxed(stmt(2, StmtType::Break)))));
    }
    let lowered = lower(vec![
        stmt(1, StmtType::Switch(expr(1, 5), Box::new(compound(1, cases)))),
        ret(3),
    ]);
    assert_eq!(lowered.result, Ok(()));
    assert!(lowered.ends_filled);
    for b in &lowered.blocks {
        let last = b.opcodes.last().unwrap();
        assert!(
            matches!(last, Opcode::Jump | Opcode::Return | Opcode::BrTable),
            "block{} ends in {:?}",
            b.number,
            last
        );
    }
}

#[test]
fn return_hands_back_the_value_of_its_expression() {
    let mut func = Function::new();
    let mut context = FunctionBuilderContext::new();
    let mut builder = FunctionBuilder::new(&mut func, &mut context);
    let entry = builder.create_block();
    builder.switch_to_block(entry);
    let mut compiler = Compiler::new(Literals);
    let result = compiler.compile_stmt(stmt(1, StmtType::Return(Some(expr(1, 7)))), &mut builder);
    assert_eq!(result, Ok(()));
    let result = compiler.compile_stmt(ret(2), &mut builder);
    assert_eq!(result, Err(unreachable_at(2)));
    let insts: Vec<_> = func.layout.block_insts(entry).collect();
    assert_eq!(insts.len(), 2);
    assert_eq!(func.dfg[insts[0]].opcode(), Opcode::Iconst);
    assert_eq!(func.dfg[insts[1]].opcode(), Opcode::Return);
    assert_eq!(
        func.dfg.inst_args(insts[1]),
        &[func.dfg.first_result(insts[0])]
    );

    let mut func = Function::new();
    let mut context = FunctionBuilderContext::new();
    let mut builder = FunctionBuilder::new(&mut func, &mut context);
    let entry = builder.create_block();
    builder.switch_to_block(entry);
    let mut compiler = Compiler::new(Literals);
    assert_eq!(compiler.compile_stmt(ret(1), &mut builder), Ok(()));
    let insts: Vec<_> = func.layout.block_insts(entry).collect();
    assert_eq!(insts.len(), 1);
    assert!(func.dfg.inst_args(insts[0]).is_empty());
}

#[test]
fn dispatch_switches_on_the_value_of_the_condition() {
    let mut func = Function::new();
    let mut context = FunctionBuilderContext::new();
    let mut builder = FunctionBuilder::new(&mut func, &mut context);
    let entry = builder.create_block();
    builder.switch_to_block(entry);
    let mut compiler = Compiler::new(Literals);
    let result = compiler.switch(
        expr(1, 9),
        stmt(2, StmtType::Case(4, boxed(ret(2)))),
        &mut builder,
    );
    assert_eq!(result, Ok(()));
    assert!(compiler.switches.is_empty());
    let insts: Vec<_> = func.layout.block_insts(entry).collect();
    assert_eq!(func.dfg[insts[0]].opcode(), Opcode::Iconst);
    let scrutinee = func.dfg.first_result(insts[0]);
    let shape = shapes(&func);
    let dispatch = cranelift::prelude::Block::from_u32(shape[0].targets[0]);
    let compare = func.layout.block_insts(dispatch).next().unwrap();
    assert_eq!(func.dfg[compare].opcode(), Opcode::IcmpImm);
    assert_eq!(func.dfg.inst_args(compare), &[scrutinee]);
}

#[test]
fn literal_sub_lowerer_emits_one_constant() {
    let mut func = Function::new();
    let mut context = FunctionBuilderContext::new();
    let mut builder = FunctionBuilder::new(&mut func, &mut context);
    let entry = builder.create_block();
    builder.switch_to_block(entry);
    let mut errors = ErrorHandler::new();
    let mut sub = Literals;
    let first = sub.compile_expr(expr(1, 5), &mut builder, &mut errors).unwrap();
    let second = sub.compile_expr(expr(1, 6), &mut builder, &mut errors).unwrap();
    assert_ne!(first, second);
    assert_eq!(sub.declare_stack((), at(1), &mut builder, &mut errors), Ok(()));
    assert_eq!(errors, ErrorHandler::new());
    assert!(!builder.is_filled());
    assert!(!builder.is_pristine());
    let insts: Vec<_> = func.layout.block_insts(entry).collect();
    assert_eq!(insts.len(), 2);
    assert_eq!(func.dfg.first_result(insts[0]).as_u32(), first.0);
    assert_eq!(func.dfg.first_result(insts[1]).as_u32(), second.0);
}
