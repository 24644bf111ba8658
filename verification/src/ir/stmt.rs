//! The statement lowerer: from a statement tree to basic blocks.

use crate::data::error::CompileError;
use crate::data::error::CompileResult;
use crate::data::error::SemanticError;
use crate::data::location::Locatable;
use crate::data::location::Location;
use crate::data::stmt::lemma_weight_of_member;
use crate::data::stmt::lemma_weight_of_push;
use crate::data::stmt::Stmt;
use crate::data::stmt::StmtType;
use crate::data::stmt::weight;
use crate::data::stmt::weight_all;
use crate::data::stmt::weight_maybe;
use crate::data::stmt::weight_opt;
use crate::ir::builder::Block;
use crate::ir::builder::brz;
use crate::ir::builder::create_block;
use crate::ir::builder::created_blocks;
use crate::ir::builder::current_block;
use crate::ir::builder::emit_switch;
use crate::ir::builder::filled_blocks;
use crate::ir::builder::filled_now;
use crate::ir::builder::has_entry;
use crate::ir::builder::insert_current_block;
use crate::ir::builder::is_filled;
use crate::ir::builder::is_pristine;
use crate::ir::builder::jump;
use crate::ir::builder::moved;
use crate::ir::builder::new_switch;
use crate::ir::builder::pristine_blocks;
use crate::ir::builder::return_;
use crate::ir::builder::set_entry;
use crate::ir::builder::switch_entries;
use crate::ir::builder::switch_to_block;
use crate::ir::builder::terminated;
use crate::ir::builder::Value;
use crate::ir::Compiler;
use crate::ir::graph::branched_on;
use crate::ir::graph::fell_through;
use crate::ir::graph::forked;
use crate::ir::graph::jumped;
use crate::ir::graph::lemma_appended;
use crate::ir::graph::lemma_emitted;
use crate::ir::graph::lemma_fell_through;
use crate::ir::graph::lemma_fresh_block;
use crate::ir::graph::lemma_grows_moved;
use crate::ir::graph::lemma_grows_refl;
use crate::ir::graph::lemma_grows_trans;
use crate::ir::graph::lemma_loop_entered;
use crate::ir::graph::lemma_moved;
use crate::ir::graph::lemma_ran_into;
use crate::ir::graph::lemma_terminated;
use crate::ir::graph::loop_entered;
use crate::ir::graph::open_now;
use crate::ir::graph::ready;
use crate::ir::graph::reserved;
use crate::ir::graph::switch_entered;
use crate::ir::lemma_prefix_trans;
use crate::ir::semantics::chosen;
use crate::ir::semantics::is_for_body;
use crate::ir::SubLowerer;
use crate::ir::SwitchContext;
use cranelift::frontend::FunctionBuilder;
use cranelift::frontend::Switch;
use vstd::prelude::*;
use vstd::string::StringExecFns;

verus! {

impl<L: SubLowerer> Compiler<L> {
    /// Jumps to `target` unless the current block is terminated already.
    pub fn jump_to_block(target: Block, builder: &mut FunctionBuilder)
        requires
            current_block(*old(builder)).is_some(),
            created_blocks(*old(builder)).contains(target.0),
        ensures
            jumped(*old(builder), *final(builder), target),
    {
        if !is_filled(builder) {
            jump(builder, target);
        }
    }

    /// Ends the current block with a jump to a new block and goes on there.
    pub fn fallthrough(&self, builder: &mut FunctionBuilder)
        requires
            open_now(*old(builder)),
        ensures
            fell_through(*old(builder), *final(builder)),
    {
        let bb = create_block(builder);
        jump(builder, bb);
        switch_to_block(builder, bb);
        proof {
            let c = current_block(*old(builder)).unwrap();
            assert(pristine_blocks(*builder) =~= pristine_blocks(*old(builder)).remove(c).insert(
                bb.0,
            ));
        }
    }
}

impl<L: SubLowerer> Compiler<L> {
    /// Enters a loop: creates the block of its body and the block after
    /// it, pushes them as the innermost loop, and goes on in the body.
    /// Returns both blocks and the loop flag as it was.
    pub fn enter_loop(&mut self, builder: &mut FunctionBuilder) -> (r: (Block, Block, bool))
        requires
            old(self).inv(*old(builder)),
            open_now(*old(builder)),
        ensures
            r.2 == old(self).last_saw_loop,
            old(self).entered(*final(self), r.0, r.1),
            loop_entered(*old(builder), *final(builder), r.0, r.1),
            final(self).inv(*final(builder)),
    {
        let loop_body = create_block(builder);
        let end_body = create_block(builder);
        self.loops.push((loop_body, end_body));
        let old_saw_loop = self.last_saw_loop;
        self.last_saw_loop = true;

        jump(builder, loop_body);
        switch_to_block(builder, loop_body);
        proof {
            let c = current_block(*old(builder)).unwrap();
            assert(pristine_blocks(*builder) =~= pristine_blocks(*old(builder)).remove(c).insert(
                loop_body.0,
            ).insert(end_body.0));
        }
        (loop_body, end_body, old_saw_loop)
    }

    /// Leaves the innermost loop and puts the loop flag back to
    /// `old_saw_loop`.
    pub fn exit_loop(&mut self, old_saw_loop: bool)
        ensures
            old(self).exited(*final(self), old_saw_loop),
    {
        self.loops.pop();
        self.last_saw_loop = old_saw_loop;
    }

    /// Lowers `break` (`is_break`) or `continue`: a jump to where
    /// `exit_target` says, or an error at `location` if it says nowhere.
    pub fn loop_exit(&mut self, is_break: bool, location: Location, builder: &mut FunctionBuilder) -> (r:
        CompileResult<()>)
        requires
            old(self).inv(*old(builder)),
            open_now(*old(builder)),
        ensures
            old(self).left_by_exit(
                is_break,
                location,
                *old(builder),
                *final(self),
                *final(builder),
                r,
            ),
    {
        if self.last_saw_loop {
            if self.loops.len() > 0 {
                let (loop_start, loop_end) = self.loops[self.loops.len() - 1];
                if is_break {
                    jump(builder, loop_end);
                } else {
                    jump(builder, loop_start);
                }
                Ok(())
            } else if is_break {
                Err(
                    location.error(
                        SemanticError::Generic(
                            String::from_str("'break' statement not in loop or switch statement"),
                        ),
                    ),
                )
            } else {
                Err(
                    location.error(
                        SemanticError::Generic(
                            String::from_str(
                                "'continue' statement not in loop or switch statement",
                            ),
                        ),
                    ),
                )
            }
        } else if !is_break {
            Err(location.error(SemanticError::Generic(String::from_str("'continue' not in loop"))))
        } else {
            let end_block = self.switches[self.switches.len() - 1].end;
            jump(builder, end_block);
            Ok(())
        }
    }
}

impl<L: SubLowerer> Compiler<L> {
    /// Lowers the statements in order and stops at the first that fails.
    pub fn compile_all(
        &mut self,
        stmts: Vec<Stmt<L::Expr, L::Decl>>,
        builder: &mut FunctionBuilder,
    ) -> (r: CompileResult<()>)
        requires
            old(self).inv(*old(builder)),
            ready(*old(builder)),
        ensures
            old(self).lowered(*old(builder), *final(self), *final(builder)),
            old(self).compiled_all(stmts@, *old(builder), *final(self), *final(builder), r),
        decreases weight_all(stmts@), 1nat,
    {
        let ghost self0 = *self;
        let ghost b0 = *builder;
        let ghost all = stmts@;
        proof {
            lemma_grows_refl(b0);
            self0.lemma_carried_refl();
        }
        let mut result: CompileResult<()> = Ok(());
        for stmt in it: stmts.into_iter()
            invariant
                self0 == *old(self),
                b0 == *old(builder),
                self0.lowered(b0, *self, *builder),
                it.seq() == all,
                result is Ok,
                self0.compiled_all(all.take(it.index() as int), b0, *self, *builder, result),
        {
            let ghost done = it.index() as int;
            let ghost so_far = result;
            proof {
                lemma_weight_of_member(all, done);
            }
            let ghost self1 = *self;
            let ghost b1 = *builder;
            result = self.compile_stmt(stmt, builder);
            proof {
                self0.lemma_lowered_trans(b0, self1, b1, *self, *builder);
                assert(all.take(done + 1).drop_last() =~= all.take(done));
                assert(self0.compiled_all_via(
                    all.take(done + 1),
                    b0,
                    self1,
                    b1,
                    so_far,
                    *self,
                    *builder,
                    result,
                ));
                assert(chosen((self1, b1, so_far)));
                assert(self0.compiled_all(all.take(done + 1), b0, *self, *builder, result));
            }
            if result.is_err() {
                proof {
                    self0.lemma_stopped_early(all, done + 1, b0, *self, *builder, result);
                }
                return result;
            }
        }
        assert(all.take(all.len() as int) =~= all);
        result
    }

    /// Declarations whose installing stopped with an error do the same
    /// with more declarations after them.
    pub proof fn lemma_declaring_stopped_early(
        self,
        decls: Seq<Locatable<L::Decl>>,
        done: int,
        b0: FunctionBuilder,
        later: Self,
        bf: FunctionBuilder,
        r: CompileResult<()>,
    )
        requires
            0 < done <= decls.len(),
            r is Err,
            self.declared(decls.take(done), b0, later, bf, r),
        ensures
            self.declared(decls, b0, later, bf, r),
        decreases decls.len() - done,
    {
        if done == decls.len() {
            assert(decls.take(done) =~= decls);
        } else {
            assert(decls.take(done + 1).drop_last() =~= decls.take(done));
            assert(self.declared_via(decls.take(done + 1), b0, later, bf, r, later, bf, r));
            assert(chosen((later, bf, r)));
            assert(self.declared(decls.take(done + 1), b0, later, bf, r));
            self.lemma_declaring_stopped_early(decls, done + 1, b0, later, bf, r);
        }
    }

    /// A sequence of statements whose lowering stopped with an error does
    /// the same with more statements after it.
    pub proof fn lemma_stopped_early(
        self,
        stmts: Seq<Stmt<L::Expr, L::Decl>>,
        done: int,
        b0: FunctionBuilder,
        later: Self,
        bf: FunctionBuilder,
        r: CompileResult<()>,
    )
        requires
            0 < done <= stmts.len(),
            r is Err,
            self.compiled_all(stmts.take(done), b0, later, bf, r),
        ensures
            self.compiled_all(stmts, b0, later, bf, r),
        decreases stmts.len() - done,
    {
        if done == stmts.len() {
            assert(stmts.take(done) =~= stmts);
        } else {
            assert(stmts.take(done + 1).drop_last() =~= stmts.take(done));
            assert(stmts.take(done + 1).len() > 0);
            assert(self.compiled_all_via(stmts.take(done + 1), b0, later, bf, r, later, bf, r));
            assert(chosen((later, bf, r)));
            assert(self.compiled_all(stmts.take(done + 1), b0, later, bf, r));
            self.lemma_stopped_early(stmts, done + 1, b0, later, bf, r);
        }
    }

    /// Lowers one statement.
    pub fn compile_stmt(
        &mut self,
        stmt: Stmt<L::Expr, L::Decl>,
        builder: &mut FunctionBuilder,
    ) -> (r: CompileResult<()>)
        requires
            old(self).inv(*old(builder)),
            ready(*old(builder)),
        ensures
            old(self).lowered(*old(builder), *final(self), *final(builder)),
            old(self).compiled(stmt, *old(builder), *final(self), *final(builder), r),
        decreases weight(stmt), 0nat,
    {
        let location = stmt.location;
        let ghost self0 = *self;
        let ghost b0 = *builder;
        proof {
            lemma_grows_refl(b0);
            self0.lemma_carried_refl();
        }
        if is_filled(builder) && !stmt.data.is_jump_target() {
            return Err(location.error(SemanticError::UnreachableStatement));
        }
        match stmt.data {
            StmtType::Compound(stmts) => self.compile_all(stmts, builder),
            StmtType::Decl(decls) => {
                let ghost all = decls@;
                let mut result: CompileResult<()> = Ok(());
                for decl in it: decls.into_iter()
                    invariant
                        self0 == *old(self),
                        b0 == *old(builder),
                        self0.lowered(b0, *self, *builder),
                        open_now(*builder),
                        !Self::rejects(b0, stmt),
                        stmt.data matches StmtType::Decl(d) && d@ == all,
                        it.seq() == all,
                        result is Ok,
                        self0.declared(all.take(it.index() as int), b0, *self, *builder, result),
                {
                    let ghost done = it.index() as int;
                    let ghost so_far = result;
                    let ghost self1 = *self;
                    let ghost b1 = *builder;
                    result =
                    self.sub.declare_stack(
                        decl.data,
                        decl.location,
                        builder,
                        &mut self.error_handler,
                    );
                    proof {
                        lemma_grows_trans(b0, b1, *builder);
                        self.lemma_inv_grows(b1, *builder);
                        lemma_prefix_trans(
                            self0.error_handler.errors@,
                            self1.error_handler.errors@,
                            self.error_handler.errors@,
                        );
                        lemma_prefix_trans(
                            self0.error_handler.warnings@,
                            self1.error_handler.warnings@,
                            self.error_handler.warnings@,
                        );
                        assert(all.take(done + 1).drop_last() =~= all.take(done));
                        assert(all.take(done + 1).last() == decl);
                        assert(self1.installed(decl, b1, *self, *builder, result));
                        assert(self0.declared_via(
                            all.take(done + 1),
                            b0,
                            self1,
                            b1,
                            so_far,
                            *self,
                            *builder,
                            result,
                        ));
                        assert(chosen((self1, b1, so_far)));
                        assert(self0.declared(all.take(done + 1), b0, *self, *builder, result));
                    }
                    if result.is_err() {
                        proof {
                            self0.lemma_declaring_stopped_early(
                                all,
                                done + 1,
                                b0,
                                *self,
                                *builder,
                                result,
                            );
                        }
                        return result;
                    }
                }
                assert(all.take(all.len() as int) =~= all);
                result
            },
            StmtType::Expr(expr) => {
                let value = self.sub.compile_expr(expr, builder, &mut self.error_handler);
                proof {
                    self.lemma_inv_grows(b0, *builder);
                    assert(self0.evaluated(expr, b0, *self, *builder, value));
                }
                match value {
                    Ok(_) => Ok(()),
                    Err(e) => Err(e),
                }
            },
            StmtType::Return(expr) => {
                let ghost given = expr;
                let ghost mut s1 = self0;
                let ghost mut b1 = b0;
                let ghost mut lowered: CompileResult<Value> = Ok(Value(0));
                let mut ret: Vec<Value> = Vec::new();
                match expr {
                    Some(e) => {
                        let value = self.sub.compile_expr(e, builder, &mut self.error_handler);
                        proof {
                            self.lemma_inv_grows(b0, *builder);
                            s1 = *self;
                            b1 = *builder;
                            lowered = value;
                            assert(self0.evaluated(e, b0, s1, b1, value));
                        }
                        match value {
                            Ok(val) => {
                                ret.push(val);
                            },
                            Err(error) => {
                                assert(self0.returned_via(
                                    e,
                                    b0,
                                    s1,
                                    b1,
                                    value,
                                    s1,
                                    b1,
                                    Err::<(), CompileError>(error),
                                ));
                                return Err(error);
                            },
                        }
                    },
                    None => {},
                }
                return_(builder, &ret);
                let r = Ok(());
                proof {
                    lemma_terminated(b1, *builder);
                    lemma_grows_trans(b0, b1, *builder);
                    self.lemma_inv_grows(b1, *builder);
                    match given {
                        Some(e) => {
                            assert(ret@ =~= seq![lowered->Ok_0]);
                            assert(self0.returned_via(e, b0, s1, b1, lowered, s1, *builder, r));
                        },
                        None => {
                            assert(ret@ =~= Seq::<Value>::empty());
                        },
                    }
                }
                r
            },
            StmtType::If(condition, body, otherwise) => self.if_stmt(
                condition,
                *body,
                otherwise,
                builder,
            ),
            StmtType::While(condition, maybe_body) => {
                let ghost size = weight_opt(maybe_body);
                let body = match maybe_body {
                    Some(b) => Some(*b),
                    None => None,
                };
                assert(weight_maybe(body) == size);
                self.while_stmt(Some(condition), body, builder)
            },
            StmtType::Break => {
                let r = self.loop_exit(true, location, builder);
                proof {
                    if r is Ok {
                        lemma_terminated(b0, *builder);
                    }
                    self.lemma_inv_grows(b0, *builder);
                }
                r
            },
            StmtType::Continue => {
                let r = self.loop_exit(false, location, builder);
                proof {
                    if r is Ok {
                        lemma_terminated(b0, *builder);
                    }
                    self.lemma_inv_grows(b0, *builder);
                }
                r
            },
            StmtType::For(init, condition, post_loop, body) => {
                let condition = match condition {
                    Some(c) => Some(*c),
                    None => None,
                };
                let post_loop = match post_loop {
                    Some(p) => Some(*p),
                    None => None,
                };
                self.for_loop(init, condition, post_loop, body, location, builder)
            },
            StmtType::Do(body, condition) => self.do_loop(*body, condition, builder),
            StmtType::Switch(condition, body) => self.switch(condition, *body, builder),
            StmtType::Label(name, inner) => {
                let ghost size = weight_opt(inner);
                let new_block = create_block(builder);
                let ghost b1 = *builder;
                Self::jump_to_block(new_block, builder);
                let ghost b2 = *builder;
                switch_to_block(builder, new_block);
                proof {
                    lemma_fresh_block(b0, b1, new_block.0);
                    if !filled_now(b1) {
                        lemma_terminated(b1, b2);
                    } else {
                        lemma_grows_refl(b1);
                    }
                    lemma_grows_trans(b0, b1, b2);
                    lemma_moved(b2, *builder, new_block.0);
                    lemma_grows_moved(b0, b2, *builder, new_block.0);
                    lemma_ran_into(b0, b1, b2, *builder, new_block);
                }
                let ghost b3 = *builder;
                let ghost given = name;
                match self.labels.insert(name, new_block) {
                    Some(previous) => {
                        self.error_handler.push_back(
                            location.with(SemanticError::LabelRedeclaration(previous)),
                        );
                        let r = Ok(());
                        proof {
                            assert(chosen((*self, b3)));
                            assert(self0.labelled_via(
                                given,
                                inner,
                                location,
                                b0,
                                *self,
                                b3,
                                *self,
                                b3,
                                r,
                            ));
                        }
                        r
                    },
                    None => {
                        let ghost self1 = *self;
                        proof {
                            assert(self1.labels@.contains_key(given@));
                            assert(chosen((self1, b3)));
                        }
                        match inner {
                            Some(labelled) => {
                                assert(weight(*labelled) == size);
                                let r = self.compile_stmt(*labelled, builder);
                                proof {
                                    self0.lemma_lowered_trans(b0, self1, b3, *self, *builder);
                                    assert(self0.labelled_via(
                                        given,
                                        inner,
                                        location,
                                        b0,
                                        self1,
                                        b3,
                                        *self,
                                        *builder,
                                        r,
                                    ));
                                }
                                r
                            },
                            None => {
                                let r = Ok(());
                                proof {
                                    assert(self0.labelled_via(
                                        given,
                                        inner,
                                        location,
                                        b0,
                                        self1,
                                        b3,
                                        self1,
                                        b3,
                                        r,
                                    ));
                                }
                                r
                            },
                        }
                    },
                }
            },
            StmtType::Goto(name) => match self.labels.get(&name) {
                Some(target) => {
                    Self::jump_to_block(target, builder);
                    proof {
                        lemma_terminated(b0, *builder);
                        self.lemma_inv_grows(b0, *builder);
                    }
                    Ok(())
                },
                None => Err(location.error(SemanticError::UndeclaredLabel(name))),
            },
            StmtType::Case(constexpr, inner) => self.case(constexpr, inner, location, builder),
            StmtType::Default(inner) => self.default(inner, location, builder),
        }
    }

    /// Lowers `if (condition) body else otherwise`.
    pub fn if_stmt(
        &mut self,
        condition: Locatable<L::Expr>,
        body: Stmt<L::Expr, L::Decl>,
        otherwise: Option<Box<Stmt<L::Expr, L::Decl>>>,
        builder: &mut FunctionBuilder,
    ) -> (r: CompileResult<()>)
        requires
            old(self).inv(*old(builder)),
            ready(*old(builder)),
            open_now(*old(builder)),
        ensures
            old(self).lowered(*old(builder), *final(self), *final(builder)),
            old(self).branched(
                condition,
                body,
                otherwise,
                *old(builder),
                *final(self),
                *final(builder),
                r,
            ),
        decreases 1 + weight(body) + weight_opt(otherwise), 0nat,
    {
        // If condition is zero:
        //      If else_block exists, jump to else_block + compile_all
        //      Otherwise, jump to end_block
        //  Otherwise:
        //      Fallthrough to if_body + compile_all
        //      If else_block exists, jump to end_block + compile_all
        //      Otherwise, fallthrough to end_block
        let ghost self0 = *self;
        let ghost b0 = *builder;
        let ghost tested = condition;
        let value = self.sub.compile_expr(condition, builder, &mut self.error_handler);
        let ghost lowered = value;
        let ghost s1 = *self;
        let ghost b1 = *builder;
        proof {
            self.lemma_inv_grows(b0, b1);
            assert(self0.evaluated(tested, b0, s1, b1, lowered));
        }
        let condition = match value {
            Ok(v) => v,
            Err(e) => {
                let r = Err(e);
                proof {
                    let nowhere = Block(0);
                    assert(chosen(
                        (
                            (s1, b1, lowered, nowhere, nowhere, nowhere, b1),
                            (s1, b1, r, b1, b1),
                            (s1, b1, r),
                        ),
                    ));
                    assert(self0.branched_via(
                        tested,
                        body,
                        otherwise,
                        b0,
                        s1,
                        b1,
                        lowered,
                        nowhere,
                        nowhere,
                        nowhere,
                        b1,
                        s1,
                        b1,
                        r,
                        b1,
                        b1,
                        s1,
                        b1,
                        r,
                        s1,
                        b1,
                        r,
                    ));
                }
                return r;
            },
        };
        let if_body = create_block(builder);
        let ghost c1 = *builder;
        let end_body = create_block(builder);
        let ghost c2 = *builder;
        proof {
            lemma_fresh_block(b1, c1, if_body.0);
            lemma_fresh_block(c1, c2, end_body.0);
            lemma_grows_trans(b0, b1, c1);
            lemma_grows_trans(b0, c1, c2);
        }
        match otherwise {
            Some(other) => {
                let else_body = create_block(builder);
                let ghost c3 = *builder;
                brz(builder, condition, else_body);
                let ghost c4 = *builder;
                jump(builder, if_body);
                let ghost c5 = *builder;

                switch_to_block(builder, if_body);
                let ghost b2 = *builder;
                proof {
                    lemma_fresh_block(c2, c3, else_body.0);
                    lemma_appended(c3, c4);
                    lemma_terminated(c4, c5);
                    lemma_grows_trans(b0, c2, c3);
                    lemma_grows_trans(b0, c3, c4);
                    lemma_grows_trans(b0, c4, c5);
                    lemma_grows_trans(c2, c3, c4);
                    lemma_grows_trans(c2, c4, c5);
                    lemma_grows_trans(c3, c4, c5);
                    lemma_moved(c5, b2, if_body.0);
                    lemma_grows_moved(b0, c5, b2, if_body.0);
                    self.lemma_inv_grows(b1, b2);
                    let made = set![if_body.0, end_body.0, else_body.0];
                    let c = current_block(b1).unwrap();
                    assert(created_blocks(b2) =~= created_blocks(b1).union(made));
                    assert(pristine_blocks(b2) =~= pristine_blocks(b1).remove(c).union(made));
                    assert(forked(b1, b2, condition.0, if_body.0, else_body.0, made));
                }
                let r_then = self.compile_stmt(body, builder);
                let ghost s2 = *self;
                let ghost b3 = *builder;
                proof {
                    self0.lemma_lowered_trans(b0, s1, b2, s2, b3);
                }
                if r_then.is_err() {
                    proof {
                        assert(chosen(
                            (
                                (s1, b1, lowered, if_body, end_body, else_body, b2),
                                (s2, b3, r_then, b3, b3),
                                (s2, b3, r_then),
                            ),
                        ));
                        assert(self0.branched_via(
                            tested,
                            body,
                            otherwise,
                            b0,
                            s1,
                            b1,
                            lowered,
                            if_body,
                            end_body,
                            else_body,
                            b2,
                            s2,
                            b3,
                            r_then,
                            b3,
                            b3,
                            s2,
                            b3,
                            r_then,
                            s2,
                            b3,
                            r_then,
                        ));
                    }
                    return r_then;
                }
                let if_has_return = is_filled(builder);
                Self::jump_to_block(end_body, builder);
                let ghost b4 = *builder;

                switch_to_block(builder, else_body);
                let ghost b5 = *builder;
                proof {
                    if !filled_now(b3) {
                        lemma_terminated(b3, b4);
                    } else {
                        lemma_grows_refl(b3);
                    }
                    lemma_grows_trans(b0, b3, b4);
                    lemma_moved(b4, b5, else_body.0);
                    lemma_grows_moved(b0, b4, b5, else_body.0);
                    self.lemma_inv_grows(b3, b5);
                }
                let r_else = self.compile_stmt(*other, builder);
                let ghost s3 = *self;
                let ghost b6 = *builder;
                proof {
                    self0.lemma_lowered_trans(b0, s2, b5, s3, b6);
                    assert(chosen(
                        (
                            (s1, b1, lowered, if_body, end_body, else_body, b2),
                            (s2, b3, r_then, b4, b5),
                            (s3, b6, r_else),
                        ),
                    ));
                }
                if r_else.is_err() {
                    proof {
                        assert(self0.branched_via(
                            tested,
                            body,
                            otherwise,
                            b0,
                            s1,
                            b1,
                            lowered,
                            if_body,
                            end_body,
                            else_body,
                            b2,
                            s2,
                            b3,
                            r_then,
                            b4,
                            b5,
                            s3,
                            b6,
                            r_else,
                            s3,
                            b6,
                            r_else,
                        ));
                    }
                    return r_else;
                }
                if !is_filled(builder) {
                    jump(builder, end_body);
                    let ghost b7 = *builder;
                    switch_to_block(builder, end_body);
                    proof {
                        lemma_terminated(b6, b7);
                        lemma_grows_trans(b0, b6, b7);
                        lemma_moved(b7, *builder, end_body.0);
                        lemma_grows_moved(b0, b7, *builder, end_body.0);
                        self.lemma_inv_grows(b6, *builder);
                        assert(moved(b7, *builder));
                    }
                    // if we returned in both 'if' and 'else' blocks, all following code is unreachable
                    // this is the case where we returned in 'else' but not 'if'
                } else if !if_has_return {
                    switch_to_block(builder, end_body);
                    proof {
                        lemma_moved(b6, *builder, end_body.0);
                        lemma_grows_moved(b0, b6, *builder, end_body.0);
                        self.lemma_inv_grows(b6, *builder);
                    }
                }
                let r = Ok(());
                proof {
                    assert(Self::joined(b3, b6, *builder, end_body));
                    assert(self0.branched_via(
                        tested,
                        body,
                        otherwise,
                        b0,
                        s1,
                        b1,
                        lowered,
                        if_body,
                        end_body,
                        else_body,
                        b2,
                        s2,
                        b3,
                        r_then,
                        b4,
                        b5,
                        s3,
                        b6,
                        r_else,
                        s3,
                        *builder,
                        r,
                    ));
                }
                r
            },
            None => {
                brz(builder, condition, end_body);
                let ghost c4 = *builder;
                jump(builder, if_body);
                let ghost c5 = *builder;

                switch_to_block(builder, if_body);
                let ghost b2 = *builder;
                proof {
                    lemma_appended(c2, c4);
                    lemma_terminated(c4, c5);
                    lemma_grows_trans(b0, c2, c4);
                    lemma_grows_trans(b0, c4, c5);
                    lemma_grows_trans(c2, c4, c5);
                    lemma_moved(c5, b2, if_body.0);
                    lemma_grows_moved(b0, c5, b2, if_body.0);
                    self.lemma_inv_grows(b1, b2);
                    let made = set![if_body.0, end_body.0];
                    let c = current_block(b1).unwrap();
                    assert(created_blocks(b2) =~= created_blocks(b1).union(made));
                    assert(pristine_blocks(b2) =~= pristine_blocks(b1).remove(c).union(made));
                    assert(forked(b1, b2, condition.0, if_body.0, end_body.0, made));
                }
                let r_then = self.compile_stmt(body, builder);
                let ghost s2 = *self;
                let ghost b3 = *builder;
                proof {
                    self0.lemma_lowered_trans(b0, s1, b2, s2, b3);
                }
                if r_then.is_err() {
                    proof {
                        assert(chosen(
                            (
                                (s1, b1, lowered, if_body, end_body, if_body, b2),
                                (s2, b3, r_then, b3, b3),
                                (s2, b3, r_then),
                            ),
                        ));
                        assert(self0.branched_via(
                            tested,
                            body,
                            otherwise,
                            b0,
                            s1,
                            b1,
                            lowered,
                            if_body,
                            end_body,
                            if_body,
                            b2,
                            s2,
                            b3,
                            r_then,
                            b3,
                            b3,
                            s2,
                            b3,
                            r_then,
                            s2,
                            b3,
                            r_then,
                        ));
                    }
                    return r_then;
                }
                Self::jump_to_block(end_body, builder);
                let ghost b4 = *builder;

                switch_to_block(builder, end_body);
                let r = Ok(());
                proof {
                    if !filled_now(b3) {
                        lemma_terminated(b3, b4);
                    } else {
                        lemma_grows_refl(b3);
                    }
                    lemma_grows_trans(b0, b3, b4);
                    lemma_moved(b4, *builder, end_body.0);
                    lemma_grows_moved(b0, b4, *builder, end_body.0);
                    self.lemma_inv_grows(b3, *builder);
                    assert(chosen(
                        (
                            (s1, b1, lowered, if_body, end_body, if_body, b2),
                            (s2, b3, r_then, b4, b4),
                            (s2, b4, r_then),
                        ),
                    ));
                    assert(self0.branched_via(
                        tested,
                        body,
                        otherwise,
                        b0,
                        s1,
                        b1,
                        lowered,
                        if_body,
                        end_body,
                        if_body,
                        b2,
                        s2,
                        b3,
                        r_then,
                        b4,
                        b4,
                        s2,
                        b4,
                        r_then,
                        s2,
                        *builder,
                        r,
                    ));
                }
                r
            },
        }
    }
}

impl<L: SubLowerer> Compiler<L> {
    /// Lowers `while (condition) body`; without a condition the loop is
    /// left only by a jump out of its body.
    pub fn while_stmt(
        &mut self,
        maybe_condition: Option<Locatable<L::Expr>>,
        maybe_body: Option<Stmt<L::Expr, L::Decl>>,
        builder: &mut FunctionBuilder,
    ) -> (r: CompileResult<()>)
        requires
            old(self).inv(*old(builder)),
            ready(*old(builder)),
            open_now(*old(builder)),
        ensures
            old(self).lowered(*old(builder), *final(self), *final(builder)),
            old(self).looped(
                maybe_condition,
                maybe_body,
                *old(builder),
                *final(self),
                *final(builder),
                r,
            ),
        decreases 1 + weight_maybe(maybe_body), 0nat,
    {
        let ghost self0 = *self;
        let ghost b0 = *builder;
        let ghost given = maybe_condition;
        let ghost mut lowered: CompileResult<Value> = Ok(Value(0));
        let (loop_body, end_body, old_saw_loop) = self.enter_loop(builder);
        let ghost s1 = *self;
        let ghost b1 = *builder;
        proof {
            lemma_loop_entered(b0, b1, loop_body, end_body);
            s1.lemma_carried_refl();
        }

        // for loops can loop forever: `for (;;) {}`
        let ghost mut fallen: u32 = 0;
        let ghost mut s2 = s1;
        let ghost mut b2 = b1;
        match maybe_condition {
            Some(condition) => {
                let value = self.sub.compile_expr(condition, builder, &mut self.error_handler);
                proof {
                    s2 = *self;
                    b2 = *builder;
                    lowered = value;
                    assert(s1.evaluated(condition, b1, s2, b2, value));
                    self.lemma_inv_grows(b1, b2);
                    lemma_grows_trans(b0, b1, b2);
                }
                match value {
                    Ok(v) => {
                        brz(builder, v, end_body);
                        let ghost c1 = *builder;
                        self.fallthrough(builder);
                        proof {
                            lemma_appended(b2, c1);
                            lemma_grows_trans(b0, b2, c1);
                            lemma_fell_through(c1, *builder);
                            lemma_grows_trans(b0, c1, *builder);
                            lemma_grows_trans(b1, b2, c1);
                            lemma_grows_trans(b1, c1, *builder);
                            self.lemma_inv_grows(b2, *builder);
                            fallen = current_block(*builder).unwrap();
                            let c = current_block(b2).unwrap();
                            assert(created_blocks(*builder) =~= created_blocks(b2).union(
                                set![fallen],
                            ));
                            assert(pristine_blocks(*builder) =~= pristine_blocks(b2).remove(
                                c,
                            ).union(set![fallen]));
                            assert(forked(b2, *builder, v.0, fallen, end_body.0, set![fallen]));
                        }
                    },
                    Err(e) => {
                        self.exit_loop(old_saw_loop);
                        let r = Err(e);
                        proof {
                            self0.lemma_left_loop(s1, s2, *self, loop_body, end_body, b2);
                            assert(chosen(
                                (
                                    (loop_body, end_body, s1, b1),
                                    (s2, b2, lowered, fallen, b2),
                                    (s2, b2, r, b2),
                                ),
                            ));
                            assert(self0.looped_via(
                                given,
                                maybe_body,
                                b0,
                                loop_body,
                                end_body,
                                s1,
                                b1,
                                s2,
                                b2,
                                lowered,
                                fallen,
                                b2,
                                s2,
                                b2,
                                r,
                                b2,
                                *self,
                                b2,
                                r,
                            ));
                        }
                        return r;
                    },
                }
            },
            None => {},
        }
        let ghost b3 = *builder;
        let mut r_body: CompileResult<()> = Ok(());
        match maybe_body {
            Some(body) => {
                r_body = self.compile_stmt(body, builder);
                proof {
                    s1.lemma_lowered_trans(b1, s2, b3, *self, *builder);
                    lemma_grows_trans(b0, b1, *builder);
                }
            },
            None => {},
        }
        let ghost s3 = *self;
        let ghost b4 = *builder;
        if r_body.is_err() {
            self.exit_loop(old_saw_loop);
            proof {
                self0.lemma_left_loop(s1, s3, *self, loop_body, end_body, b4);
                assert(chosen(
                    ((loop_body, end_body, s1, b1), (s2, b2, lowered, fallen, b3), (s3, b4, r_body, b4)),
                ));
                assert(self0.looped_via(
                    given,
                    maybe_body,
                    b0,
                    loop_body,
                    end_body,
                    s1,
                    b1,
                    s2,
                    b2,
                    lowered,
                    fallen,
                    b3,
                    s3,
                    b4,
                    r_body,
                    b4,
                    *self,
                    b4,
                    r_body,
                ));
            }
            return r_body;
        }
        Self::jump_to_block(loop_body, builder);
        let ghost b5 = *builder;

        switch_to_block(builder, end_body);
        self.exit_loop(old_saw_loop);
        let r = Ok(());
        proof {
            if !filled_now(b4) {
                lemma_terminated(b4, b5);
            } else {
                lemma_grows_refl(b4);
            }
            lemma_grows_trans(b1, b4, b5);
            lemma_grows_trans(b0, b1, b5);
            lemma_moved(b5, *builder, end_body.0);
            lemma_grows_moved(b0, b5, *builder, end_body.0);
            s3.lemma_inv_grows(b4, *builder);
            self0.lemma_left_loop(s1, s3, *self, loop_body, end_body, *builder);
            assert(chosen(
                ((loop_body, end_body, s1, b1), (s2, b2, lowered, fallen, b3), (s3, b4, r_body, b5)),
            ));
            assert(self0.looped_via(
                given,
                maybe_body,
                b0,
                loop_body,
                end_body,
                s1,
                b1,
                s2,
                b2,
                lowered,
                fallen,
                b3,
                s3,
                b4,
                r_body,
                b5,
                *self,
                *builder,
                r,
            ));
        }
        r
    }

    /// Lowers `do body while (condition)`. A body that leaves no way to
    /// its end makes the condition unreachable, which is an error at the
    /// condition.
    pub fn do_loop(
        &mut self,
        body: Stmt<L::Expr, L::Decl>,
        condition: Locatable<L::Expr>,
        builder: &mut FunctionBuilder,
    ) -> (r: CompileResult<()>)
        requires
            old(self).inv(*old(builder)),
            ready(*old(builder)),
            open_now(*old(builder)),
        ensures
            old(self).lowered(*old(builder), *final(self), *final(builder)),
            old(self).did(body, condition, *old(builder), *final(self), *final(builder), r),
        decreases 1 + weight(body), 0nat,
    {
        let ghost self0 = *self;
        let ghost b0 = *builder;
        let ghost unused: CompileResult<Value> = Ok(Value(0));
        let (loop_body, end_body, old_saw_loop) = self.enter_loop(builder);
        let ghost s1 = *self;
        let ghost b1 = *builder;
        proof {
            lemma_loop_entered(b0, b1, loop_body, end_body);
        }

        let r_body = self.compile_stmt(body, builder);
        let ghost s2 = *self;
        let ghost b2 = *builder;
        proof {
            lemma_grows_trans(b0, b1, b2);
        }
        if r_body.is_err() {
            self.exit_loop(old_saw_loop);
            proof {
                self0.lemma_left_loop(s1, s2, *self, loop_body, end_body, b2);
                assert(chosen(
                    ((loop_body, end_body, s1, b1), (s2, b2, r_body), (s2, b2, unused, b2)),
                ));
                assert(self0.did_via(
                    body,
                    condition,
                    b0,
                    loop_body,
                    end_body,
                    s1,
                    b1,
                    s2,
                    b2,
                    r_body,
                    s2,
                    b2,
                    unused,
                    b2,
                    *self,
                    b2,
                    r_body,
                ));
            }
            return r_body;
        }
        if is_filled(builder) {
            self.exit_loop(old_saw_loop);
            let r = Err(condition.location.error(SemanticError::UnreachableStatement));
            proof {
                self0.lemma_left_loop(s1, s2, *self, loop_body, end_body, b2);
                assert(chosen(
                    ((loop_body, end_body, s1, b1), (s2, b2, r_body), (s2, b2, unused, b2)),
                ));
                assert(self0.did_via(
                    body,
                    condition,
                    b0,
                    loop_body,
                    end_body,
                    s1,
                    b1,
                    s2,
                    b2,
                    r_body,
                    s2,
                    b2,
                    unused,
                    b2,
                    *self,
                    b2,
                    r,
                ));
            }
            return r;
        }
        let value = self.sub.compile_expr(condition, builder, &mut self.error_handler);
        let ghost lowered = value;
        let ghost s3 = *self;
        let ghost b3 = *builder;
        proof {
            s3.lemma_inv_grows(b2, b3);
            lemma_grows_trans(b0, b2, b3);
            lemma_grows_trans(b1, b2, b3);
            assert(s2.evaluated(condition, b2, s3, b3, lowered));
            s1.lemma_carried_trans(s2, s3);
        }
        match value {
            Ok(v) => {
                brz(builder, v, end_body);
                let ghost c1 = *builder;
                Self::jump_to_block(loop_body, builder);
                let ghost b4 = *builder;

                switch_to_block(builder, end_body);
                self.exit_loop(old_saw_loop);
                let r = Ok(());
                proof {
                    lemma_appended(b3, c1);
                    lemma_terminated(c1, b4);
                    lemma_grows_trans(b3, c1, b4);
                    lemma_grows_trans(b1, b3, b4);
                    lemma_grows_trans(b0, b3, b4);
                    lemma_moved(b4, *builder, end_body.0);
                    lemma_grows_moved(b0, b4, *builder, end_body.0);
                    s3.lemma_inv_grows(b3, *builder);
                    self0.lemma_left_loop(s1, s3, *self, loop_body, end_body, *builder);
                    let c = current_block(b3).unwrap();
                    assert(pristine_blocks(b4) =~= pristine_blocks(b3).remove(c));
                    assert(filled_blocks(b4) =~= filled_blocks(b3).insert(c));
                    assert(branched_on(b3, b4, v.0, end_body.0, loop_body.0));
                    assert(chosen(
                        ((loop_body, end_body, s1, b1), (s2, b2, r_body), (s3, b3, lowered, b4)),
                    ));
                    assert(self0.did_via(
                        body,
                        condition,
                        b0,
                        loop_body,
                        end_body,
                        s1,
                        b1,
                        s2,
                        b2,
                        r_body,
                        s3,
                        b3,
                        lowered,
                        b4,
                        *self,
                        *builder,
                        r,
                    ));
                }
                r
            },
            Err(e) => {
                self.exit_loop(old_saw_loop);
                let r = Err(e);
                proof {
                    self0.lemma_left_loop(s1, s3, *self, loop_body, end_body, b3);
                    assert(chosen(
                        ((loop_body, end_body, s1, b1), (s2, b2, r_body), (s3, b3, lowered, b3)),
                    ));
                    assert(self0.did_via(
                        body,
                        condition,
                        b0,
                        loop_body,
                        end_body,
                        s1,
                        b1,
                        s2,
                        b2,
                        r_body,
                        s3,
                        b3,
                        lowered,
                        b3,
                        *self,
                        b3,
                        r,
                    ));
                }
                r
            },
        }
    }

    /// Lowers `for (init; condition; post_loop) body` as `init` followed
    /// by `while (condition) { body post_loop; }`. The statement made for
    /// `post_loop`, and a compound made to hold it, stand at `location`.
    pub fn for_loop(
        &mut self,
        init: Option<Box<Stmt<L::Expr, L::Decl>>>,
        condition: Option<Locatable<L::Expr>>,
        post_loop: Option<Locatable<L::Expr>>,
        body: Option<Box<Stmt<L::Expr, L::Decl>>>,
        location: Location,
        builder: &mut FunctionBuilder,
    ) -> (r: CompileResult<()>)
        requires
            old(self).inv(*old(builder)),
            ready(*old(builder)),
            open_now(*old(builder)),
        ensures
            old(self).lowered(*old(builder), *final(self), *final(builder)),
            old(self).iterated(
                init,
                condition,
                post_loop,
                body,
                location,
                *old(builder),
                *final(self),
                *final(builder),
                r,
            ),
        decreases 4 + weight_opt(init) + weight_opt(body), 0nat,
    {
        let ghost self0 = *self;
        let ghost b0 = *builder;
        let ghost given_condition = condition;
        proof {
            lemma_grows_refl(b0);
            self0.lemma_carried_refl();
        }
        let mut r_init: CompileResult<()> = Ok(());
        match init {
            Some(first) => {
                r_init = self.compile_stmt(*first, builder);
            },
            None => {},
        }
        let ghost s1 = *self;
        let ghost b1 = *builder;
        proof {
            assert(chosen((s1, b1, r_init, None::<Stmt<L::Expr, L::Decl>>)));
        }
        if r_init.is_err() {
            proof {
                assert(self0.iterated_via(
                    init,
                    given_condition,
                    post_loop,
                    body,
                    location,
                    b0,
                    s1,
                    b1,
                    r_init,
                    None,
                    s1,
                    b1,
                    r_init,
                ));
            }
            return r_init;
        }
        if is_filled(builder) {
            let r = Err(location.error(SemanticError::UnreachableStatement));
            proof {
                assert(self0.iterated_via(
                    init,
                    given_condition,
                    post_loop,
                    body,
                    location,
                    b0,
                    s1,
                    b1,
                    r_init,
                    None,
                    s1,
                    b1,
                    r,
                ));
            }
            return r;
        }
        let rewritten = Self::for_body(post_loop, body, location);
        let ghost given = rewritten;
        let r = self.while_stmt(condition, rewritten, builder);
        proof {
            self0.lemma_lowered_trans(b0, s1, b1, *self, *builder);
            assert(chosen((s1, b1, r_init, given)));
            assert(self0.iterated_via(
                init,
                given_condition,
                post_loop,
                body,
                location,
                b0,
                s1,
                b1,
                r_init,
                given,
                *self,
                *builder,
                r,
            ));
        }
        r
    }

    /// The body of the `while` that a `for` is lowered as: `body` with the
    /// statement `post_loop;` after it. A compound body takes the statement
    /// as its last, any other body is put into a compound with it, and
    /// without a body the statement is the body.
    pub fn for_body(
        post_loop: Option<Locatable<L::Expr>>,
        body: Option<Box<Stmt<L::Expr, L::Decl>>>,
        location: Location,
    ) -> (r: Option<Stmt<L::Expr, L::Decl>>)
        ensures
            is_for_body(r, post_loop, body, location),
            weight_maybe(r) <= weight_opt(body) + 2,
    {
        match post_loop {
            Some(post_loop) => {
                let post_loop = Locatable { data: StmtType::Expr(post_loop), location };
                match body {
                    Some(body) => {
                        let body = *body;
                        match body.data {
                            StmtType::Compound(stmts) => {
                                let mut stmts = stmts;
                                proof {
                                    lemma_weight_of_push(stmts@, post_loop);
                                }
                                stmts.push(post_loop);
                                Some(
                                    Locatable {
                                        data: StmtType::Compound(stmts),
                                        location: body.location,
                                    },
                                )
                            },
                            other => {
                                let other = Locatable { data: other, location: body.location };
                                let mut stmts = Vec::new();
                                proof {
                                    lemma_weight_of_push(stmts@, other);
                                    lemma_weight_of_push(stmts@.push(other), post_loop);
                                }
                                stmts.push(other);
                                stmts.push(post_loop);
                                assert(stmts@ =~= seq![other, post_loop]);
                                Some(Locatable { data: StmtType::Compound(stmts), location })
                            },
                        }
                    },
                    None => Some(post_loop),
                }
            },
            None => match body {
                Some(body) => Some(*body),
                None => None,
            },
        }
    }
}

impl<L: SubLowerer> Compiler<L> {
    /// Lowers `switch (condition) body`. The dispatch can only be written
    /// once the body has named its cases, so the block that evaluated the
    /// condition jumps to a block kept for the dispatch, the body is lowered
    /// into blocks of its own, and the dispatch is written last.
    pub fn switch(
        &mut self,
        condition: Locatable<L::Expr>,
        body: Stmt<L::Expr, L::Decl>,
        builder: &mut FunctionBuilder,
    ) -> (r: CompileResult<()>)
        requires
            old(self).inv(*old(builder)),
            ready(*old(builder)),
            open_now(*old(builder)),
        ensures
            old(self).lowered(*old(builder), *final(self), *final(builder)),
            old(self).switched(
                condition,
                body,
                *old(builder),
                *final(self),
                *final(builder),
                r,
            ),
        decreases 1 + weight(body), 0nat,
    {
        let ghost self0 = *self;
        let ghost b0 = *builder;
        let value = self.sub.compile_expr(condition, builder, &mut self.error_handler);
        let ghost lowered = value;
        let ghost s1 = *self;
        let ghost b1 = *builder;
        proof {
            self.lemma_inv_grows(b0, b1);
            assert(self0.evaluated(condition, b0, s1, b1, lowered));
        }
        let cond_val = match value {
            Ok(v) => v,
            Err(e) => {
                let r = Err(e);
                proof {
                    let nowhere = Block(0);
                    assert(chosen(
                        (
                            (s1, b1, lowered, nowhere, nowhere, nowhere, b1),
                            (s1, s1, b1, r),
                            (b1, b1, b1),
                        ),
                    ));
                    assert(self0.switched_via(
                        condition,
                        body,
                        b0,
                        s1,
                        b1,
                        lowered,
                        nowhere,
                        nowhere,
                        nowhere,
                        b1,
                        s1,
                        s1,
                        b1,
                        r,
                        b1,
                        b1,
                        b1,
                        s1,
                        b1,
                        r,
                    ));
                }
                return r;
            },
        };
        let dummy_block = create_block(builder);
        let ghost c1 = *builder;
        Self::jump_to_block(dummy_block, builder);
        let ghost c2 = *builder;

        let start_block = create_block(builder);
        let ghost c3 = *builder;
        switch_to_block(builder, start_block);
        let ghost c4 = *builder;
        let old_saw_loop = self.last_saw_loop;
        self.last_saw_loop = false;

        let end = create_block(builder);
        let ghost b2 = *builder;
        self.switches.push(SwitchContext { table: new_switch(), default: None, end });
        let ghost s2 = *self;
        proof {
            lemma_fresh_block(b1, c1, dummy_block.0);
            lemma_terminated(c1, c2);
            lemma_fresh_block(c2, c3, start_block.0);
            lemma_moved(c3, c4, start_block.0);
            lemma_fresh_block(c4, b2, end.0);
            lemma_grows_trans(b0, b1, c1);
            lemma_grows_trans(b0, c1, c2);
            lemma_grows_trans(b0, c2, c3);
            lemma_grows_moved(b0, c3, c4, start_block.0);
            lemma_grows_trans(b0, c4, b2);
            lemma_grows_trans(c1, c2, c3);
            self0.lemma_inv_grows(b0, b2);
            assert(s2.switches@.last().known_to(b2));
            assert(s2.switches@.drop_last() =~= self0.switches@);
            assert(reserved(b2, dummy_block.0));
            assert(reserved(b2, end.0));
            let c = current_block(b1).unwrap();
            assert(pristine_blocks(b2) =~= pristine_blocks(b1).remove(c).insert(
                dummy_block.0,
            ).insert(start_block.0).insert(end.0));
            assert(switch_entered(b1, b2, dummy_block.0, start_block.0, end.0));
        }
        let r_body = self.compile_stmt(body, builder);
        let ghost s3 = *self;
        let ghost b3 = *builder;
        let context = self.switches.pop().unwrap();
        self.last_saw_loop = old_saw_loop;
        let ghost s4 = *self;
        proof {
            lemma_grows_trans(b0, b2, b3);
            assert(self.switches@ =~= self0.switches@);
            self0.lemma_left_switch(s2, s3, *self, b3);
            assert(context == s3.switches@.last());
            assert(s2.switches@.last().extended_by(context));
            assert(context.end == end);
            assert(context.known_to(b3));
            assert(reserved(b3, dummy_block.0));
            assert(reserved(b3, end.0));
        }
        if r_body.is_err() {
            proof {
                assert(chosen(
                    (
                        (s1, b1, lowered, dummy_block, start_block, end, b2),
                        (s2, s3, b3, r_body),
                        (b3, b3, b3),
                    ),
                ));
                assert(self0.switched_via(
                    condition,
                    body,
                    b0,
                    s1,
                    b1,
                    lowered,
                    dummy_block,
                    start_block,
                    end,
                    b2,
                    s2,
                    s3,
                    b3,
                    r_body,
                    b3,
                    b3,
                    b3,
                    s4,
                    b3,
                    r_body,
                ));
            }
            return r_body;
        }
        Self::jump_to_block(context.end, builder);
        let ghost b4 = *builder;
        switch_to_block(builder, dummy_block);
        let ghost b5 = *builder;
        let ghost entries = switch_entries(context.table);
        let otherwise = match context.default {
            Some(default) => default,
            None => context.end,
        };
        proof {
            if !filled_now(b3) {
                lemma_terminated(b3, b4);
            } else {
                lemma_grows_refl(b3);
            }
            assert(reserved(b4, dummy_block.0));
            assert(reserved(b4, end.0));
            lemma_moved(b4, b5, dummy_block.0);
            assert(reserved(b5, end.0));
            lemma_grows_trans(b0, b3, b4);
            lemma_grows_moved(b0, b4, b5, dummy_block.0);
        }
        emit_switch(context.table, builder, cond_val, otherwise);
        let ghost b6 = *builder;
        proof {
            lemma_emitted(b5, b6, cond_val.0, entries, otherwise.0);
            assert(reserved(b6, end.0));
        }
        switch_to_block(builder, context.end);
        let r = Ok(());
        proof {
            lemma_grows_trans(b0, b5, b6);
            lemma_moved(b6, *builder, end.0);
            lemma_grows_moved(b0, b6, *builder, end.0);
            self.lemma_inv_grows(b3, *builder);
            assert(chosen(
                ((s1, b1, lowered, dummy_block, start_block, end, b2), (s2, s3, b3, r_body), (b4, b5, b6)),
            ));
            assert(self0.switched_via(
                condition,
                body,
                b0,
                s1,
                b1,
                lowered,
                dummy_block,
                start_block,
                end,
                b2,
                s2,
                s3,
                b3,
                r_body,
                b4,
                b5,
                b6,
                s4,
                *builder,
                r,
            ));
        }
        r
    }

    /// Lowers `case constexpr: stmt`. The constant is entered into the
    /// table of the innermost `switch`: for the current block if that is
    /// still empty, else for a new block that the current block runs into.
    pub fn case(
        &mut self,
        constexpr: u64,
        stmt: Option<Box<Stmt<L::Expr, L::Decl>>>,
        location: Location,
        builder: &mut FunctionBuilder,
    ) -> (r: CompileResult<()>)
        requires
            old(self).inv(*old(builder)),
            ready(*old(builder)),
        ensures
            old(self).lowered(*old(builder), *final(self), *final(builder)),
            old(self).cased(constexpr, stmt, location, *old(builder), *final(self), *final(builder), r),
        decreases 1 + weight_opt(stmt), 0nat,
    {
        let ghost self0 = *self;
        let ghost b0 = *builder;
        proof {
            lemma_grows_refl(b0);
            self0.lemma_carried_refl();
        }
        if self.switches.len() == 0 {
            return Err(location.error(SemanticError::CaseOutsideSwitch { is_default: false }));
        }
        if has_entry(&self.switches[self.switches.len() - 1].table, constexpr) {
            return Err(location.error(SemanticError::DuplicateCase { is_default: false }));
        }
        let mut context = self.switches.pop().unwrap();
        let ghost mut target: u32 = 0;
        if is_pristine(builder) {
            let current = insert_current_block(builder).unwrap();
            set_entry(&mut context.table, constexpr, current);
            proof {
                lemma_appended(b0, *builder);
                target = current.0;
            }
        } else {
            let new = create_block(builder);
            let ghost b1 = *builder;
            proof {
                target = new.0;
            }
            set_entry(&mut context.table, constexpr, new);
            Self::jump_to_block(new, builder);
            let ghost b2 = *builder;
            switch_to_block(builder, new);
            proof {
                lemma_fresh_block(b0, b1, new.0);
                if !filled_now(b1) {
                    lemma_terminated(b1, b2);
                } else {
                    lemma_grows_refl(b1);
                }
                lemma_grows_trans(b0, b1, b2);
                lemma_moved(b2, *builder, new.0);
                lemma_grows_moved(b0, b2, *builder, new.0);
                lemma_ran_into(b0, b1, b2, *builder, new);
            }
        }
        self.switches.push(context);
        let ghost self1 = *self;
        let ghost b3 = *builder;
        proof {
            assert(self1.switches@.drop_last() =~= self0.switches@.drop_last());
            assert(self0.switches@.last().known_to(b0));
            assert forall|i: int| 0 <= i < self1.switches@.len() implies (
            #[trigger] self1.switches@[i]).known_to(b3) by {
                if i < self1.switches@.len() - 1 {
                    assert(self1.switches@[i] == self0.switches@[i]);
                    assert(self0.switches@[i].known_to(b0));
                }
            }
            self0.lemma_inv_grows(b0, b3);
        }
        proof {
            assert(chosen((target, self1, b3)));
        }
        match stmt {
            Some(inner) => {
                let r = self.compile_stmt(*inner, builder);
                proof {
                    self0.lemma_lowered_trans(b0, self1, b3, *self, *builder);
                    assert(self0.cased_via(
                        constexpr,
                        stmt,
                        b0,
                        target,
                        self1,
                        b3,
                        *self,
                        *builder,
                        r,
                    ));
                }
                r
            },
            None => {
                let r = Ok(());
                proof {
                    assert(self0.cased_via(constexpr, stmt, b0, target, self1, b3, self1, b3, r));
                }
                r
            },
        }
    }

    /// Lowers `default: inner`. The innermost `switch` gets its default:
    /// the current block if that is still empty, else a new block that the
    /// current block runs into.
    pub fn default(
        &mut self,
        inner: Option<Box<Stmt<L::Expr, L::Decl>>>,
        location: Location,
        builder: &mut FunctionBuilder,
    ) -> (r: CompileResult<()>)
        requires
            old(self).inv(*old(builder)),
            ready(*old(builder)),
        ensures
            old(self).lowered(*old(builder), *final(self), *final(builder)),
            old(self).defaulted(inner, location, *old(builder), *final(self), *final(builder), r),
        decreases 1 + weight_opt(inner), 0nat,
    {
        let ghost self0 = *self;
        let ghost b0 = *builder;
        proof {
            lemma_grows_refl(b0);
            self0.lemma_carried_refl();
        }
        if self.switches.len() == 0 {
            return Err(location.error(SemanticError::CaseOutsideSwitch { is_default: true }));
        }
        if self.switches[self.switches.len() - 1].default.is_some() {
            return Err(location.error(SemanticError::DuplicateCase { is_default: true }));
        }
        let default_block = if is_pristine(builder) {
            let current = insert_current_block(builder).unwrap();
            proof {
                lemma_appended(b0, *builder);
            }
            current
        } else {
            let new = create_block(builder);
            let ghost b1 = *builder;
            Self::jump_to_block(new, builder);
            let ghost b2 = *builder;
            switch_to_block(builder, new);
            proof {
                lemma_fresh_block(b0, b1, new.0);
                if !filled_now(b1) {
                    lemma_terminated(b1, b2);
                } else {
                    lemma_grows_refl(b1);
                }
                lemma_grows_trans(b0, b1, b2);
                lemma_moved(b2, *builder, new.0);
                lemma_grows_moved(b0, b2, *builder, new.0);
                lemma_ran_into(b0, b1, b2, *builder, new);
            }
            new
        };
        let mut context = self.switches.pop().unwrap();
        context.default = Some(default_block);
        self.switches.push(context);
        let ghost self1 = *self;
        let ghost b3 = *builder;
        proof {
            assert(self1.switches@.drop_last() =~= self0.switches@.drop_last());
            assert(self0.switches@.last().known_to(b0));
            assert forall|i: int| 0 <= i < self1.switches@.len() implies (
            #[trigger] self1.switches@[i]).known_to(b3) by {
                if i < self1.switches@.len() - 1 {
                    assert(self1.switches@[i] == self0.switches@[i]);
                    assert(self0.switches@[i].known_to(b0));
                }
            }
            self0.lemma_inv_grows(b0, b3);
        }
        proof {
            assert(chosen((default_block.0, self1, b3)));
        }
        match inner {
            Some(stmt) => {
                let r = self.compile_stmt(*stmt, builder);
                proof {
                    self0.lemma_lowered_trans(b0, self1, b3, *self, *builder);
                    assert(self0.defaulted_via(
                        inner,
                        b0,
                        default_block.0,
                        self1,
                        b3,
                        *self,
                        *builder,
                        r,
                    ));
                }
                r
            },
            None => {
                let r = Ok(());
                proof {
                    assert(self0.defaulted_via(
                        inner,
                        b0,
                        default_block.0,
                        self1,
                        b3,
                        self1,
                        b3,
                        r,
                    ));
                }
                r
            },
        }
    }
}

} // verus!
