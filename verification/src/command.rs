//! The standalone undo/redo command engine over a `Model`.
//!
//! `Command` is the same tagged edit operation the pane component uses;
//! executing one against a model returns its exact inverse. `CommandState`
//! keeps the grouped undo and redo stacks for a model it is used with, with
//! run-length merging of typed letter runs.

use vstd::prelude::*;

use crate::edit::{EditCommand, cmd_valid, apply_cmd, cmd_cursor, inverse_ok, stack_valid,
    apply_stack, apply_stack_cursor, redo_chain_ok, sum_steps, merge_result,
    lemma_command_inverse, lemma_apply_stack_prepend, lemma_redo_chain_extend,
    lemma_sum_steps_push, lemma_last_step_le_sum, lemma_sum_steps_nonneg, norm_count, bump_count,
    drop_count, char_is_alphabetic};
use crate::file::{insert_char_spec, get_char_spec};
use crate::model::Model;
use crate::text::lines_wf;

verus! {

/// A tagged edit operation; the same commands the pane component executes.
pub use crate::edit::EditCommand as Command;

impl EditCommand {
    /// Executes the command against the model at the command's own
    /// coordinates, leaves the cursor where the edit ends, and returns the
    /// command's exact inverse.
    pub fn execute(&self, model: &mut Model) -> (inv: Command)
        requires
            old(model).wf(),
            cmd_valid(old(model)@, *self),
        ensures
            final(model).wf(),
            final(model)@ == apply_cmd(old(model)@, *self),
            inverse_ok(old(model)@, *self, inv),
            (final(model).cx as int, final(model).cy as int) == cmd_cursor(old(model)@, *self),
            final(model).buf.spec_meta() == old(model).buf.spec_meta(),
            final(model).rowoff == old(model).rowoff,
            final(model).coloff == old(model).coloff,
            final(model).status_msg == old(model).status_msg,
            final(model).mode == old(model).mode,
            final(model).dirty == old(model).dirty,
            final(model).text_selected == old(model).text_selected,
            *self matches EditCommand::DeleteString { start, end } ==> final(model).anchor_start
                == start && final(model).anchor_end == end,
            !(*self matches EditCommand::DeleteString { start, end }) ==> final(model).anchor_start
                == old(model).anchor_start && final(model).anchor_end == old(model).anchor_end,
    {
        match self {
            EditCommand::InsertNewline { location } => {
                model.cx = location.0;
                model.cy = location.1;
                model.insert_newline();
                EditCommand::DeleteChar { location: (model.cx, model.cy) }
            },
            EditCommand::InsertString { location, contents } => {
                model.cx = location.0;
                model.cy = location.1;
                model.insert_string(contents);
                EditCommand::DeleteString { start: *location, end: (model.cx, model.cy) }
            },
            EditCommand::DeleteString { start, end } => {
                model.anchor_start = *start;
                model.anchor_end = *end;
                proof {
                    assert(model.spec_anchors() == (*start, *end));
                }
                let selection = model.get_selection();
                model.delete_selection();
                EditCommand::InsertString { location: *start, contents: selection }
            },
            EditCommand::InsertChar { location, c } => {
                model.cx = location.0;
                model.cy = location.1;
                model.insert_char(*c);
                EditCommand::DeleteChar { location: (model.cx, model.cy) }
            },
            EditCommand::DeleteChar { location } => {
                model.cx = location.0;
                model.cy = location.1;
                let chr: char = model.get_char();
                model.delete_char();
                if chr == '\n' {
                    EditCommand::InsertNewline { location: (model.cx, model.cy) }
                } else {
                    EditCommand::InsertChar { location: (model.cx, model.cy), c: chr }
                }
            },
        }
    }
}

/// The grouped undo and redo stacks of one model, with the saturating
/// unsaved-change counter.
pub struct CommandState {
    /// The inverses of past edits, most recent last.
    pub undo_commands: Vec<Command>,
    /// Run lengths: how many undo commands form one user-visible step.
    pub undo_steps: Vec<usize>,
    /// The inverses of undone edits, most recent last.
    pub redo_commands: Vec<Command>,
    /// Run lengths of the redo stack.
    pub redo_steps: Vec<usize>,
    /// A saturating count of unsaved changes; negative means more undos than
    /// edits since the last save.
    pub change_count: i32,
}

impl CommandState {
    /// Every stacked command can be executed against the given buffer, in
    /// order from the top, and the run lengths add up to the stack sizes.
    pub open spec fn wf(&self, rows: Seq<Seq<char>>) -> bool {
        &&& stack_valid(rows, self.undo_commands@)
        &&& stack_valid(rows, self.redo_commands@)
        &&& sum_steps(self.undo_steps@) == self.undo_commands@.len()
        &&& sum_steps(self.redo_steps@) == self.redo_commands@.len()
    }

    /// Empty history with no unsaved changes.
    pub fn new() -> (r: CommandState)
        ensures
            forall|rows: Seq<Seq<char>>| r.wf(rows),
            r.undo_commands@.len() == 0,
            r.undo_steps@.len() == 0,
            r.redo_commands@.len() == 0,
            r.redo_steps@.len() == 0,
            r.change_count == 0,
    {
        CommandState {
            undo_commands: Vec::new(),
            undo_steps: Vec::new(),
            redo_commands: Vec::new(),
            redo_steps: Vec::new(),
            change_count: 0,
        }
    }

    /// Executes one user edit against the model: normalizes the change
    /// count, runs the command, clears the redo history, and either merges
    /// the edit into the undo entry on top of the stack (a run of typed
    /// letters) or pushes its inverse as a fresh one-step entry.
    #[verifier::rlimit(60)]
    pub fn execute_command(&mut self, cmd: Command, model: &mut Model)
        requires
            old(self).wf(old(model)@),
            old(model).wf(),
            cmd_valid(old(model)@, cmd),
        ensures
            final(self).wf(final(model)@),
            final(model).wf(),
            final(model)@ == apply_cmd(old(model)@, cmd),
            (final(model).cx as int, final(model).cy as int) == cmd_cursor(old(model)@, cmd),
            final(model).buf.spec_meta() == old(model).buf.spec_meta(),
            final(model).rowoff == old(model).rowoff,
            final(model).coloff == old(model).coloff,
            final(model).status_msg == old(model).status_msg,
            final(model).mode == old(model).mode,
            final(model).dirty == old(model).dirty,
            final(model).text_selected == old(model).text_selected,
            cmd matches EditCommand::DeleteString { start, end } ==> final(model).anchor_start
                == start && final(model).anchor_end == end,
            !(cmd matches EditCommand::DeleteString { start, end }) ==> final(model).anchor_start
                == old(model).anchor_start && final(model).anchor_end == old(model).anchor_end,
            final(self).redo_commands@.len() == 0,
            final(self).redo_steps@.len() == 0,
            final(self).change_count == bump_count(norm_count(old(self).change_count as int)),
            ({
                let res = merge_result(
                    apply_cmd(old(model)@, cmd),
                    old(self).undo_commands@,
                    cmd,
                );
                match res {
                    Option::Some(s) => {
                        &&& final(self).undo_commands@ == s
                        &&& final(self).undo_steps@ == old(self).undo_steps@
                    },
                    Option::None => {
                        &&& final(self).undo_commands@.len() == old(self).undo_commands@.len() + 1
                        &&& final(self).undo_commands@.drop_last() == old(self).undo_commands@
                        &&& inverse_ok(old(model)@, cmd, final(self).undo_commands@.last())
                        &&& final(self).undo_steps@ == old(self).undo_steps@.push(1)
                    },
                }
            }),
    {
        // After a change, unsaved undos count positively.
        if self.change_count < 0 {
            if self.change_count == i32::MIN {
                self.change_count = i32::MAX;
            } else {
                self.change_count = -self.change_count;
            }
        }

        let ghost rows0 = model@;
        let undo_cmd = cmd.execute(model);
        self.redo_commands.clear();
        self.redo_steps.clear();

        // Attempt to merge this command with the entry on top of the undo
        // stack, and push a fresh one-step entry if no merge applies.
        let mut merged = false;
        if let EditCommand::InsertChar { location, c } = &cmd {
            merged = self.try_merge_char_cmd(*c, *location, model, Ghost(rows0));
        }
        if !merged {
            proof {
                lemma_command_inverse(rows0, cmd, undo_cmd);
                lemma_sum_steps_push(self.undo_steps@, 1);
            }
            self.undo_commands.push(undo_cmd);
            self.undo_steps.push(1);
            proof {
                assert(self.undo_commands@.drop_last() =~= old(self).undo_commands@);
            }
        }

        if self.change_count < i32::MAX {
            self.change_count = self.change_count + 1;
        }
    }

    /// Executes an ordered group of commands as one atomic step: every
    /// inverse is pushed individually, but the whole group is one run
    /// length, so one undo reverses it all.
    #[verifier::rlimit(60)]
    pub fn execute_command_group(&mut self, cmds: &Vec<Command>, model: &mut Model)
        requires
            old(self).wf(old(model)@),
            old(model).wf(),
            group_valid(old(model)@, cmds@),
        ensures
            final(self).wf(final(model)@),
            final(model).wf(),
            final(model)@ == apply_group(old(model)@, cmds@),
            final(model).buf.spec_meta() == old(model).buf.spec_meta(),
            final(model).rowoff == old(model).rowoff,
            final(model).coloff == old(model).coloff,
            final(model).status_msg == old(model).status_msg,
            final(model).mode == old(model).mode,
            final(model).dirty == old(model).dirty,
            final(model).text_selected == old(model).text_selected,
            final(self).redo_commands@.len() == 0,
            final(self).redo_steps@.len() == 0,
            final(self).undo_commands@.len() == old(self).undo_commands@.len() + cmds@.len(),
            final(self).undo_commands@.take(old(self).undo_commands@.len() as int) == old(
                self,
            ).undo_commands@,
            final(self).undo_steps@ == old(self).undo_steps@.push(cmds@.len() as usize),
            group_inverses_ok(
                old(model)@,
                cmds@,
                final(self).undo_commands@.skip(old(self).undo_commands@.len() as int),
            ),
            final(self).change_count == bump_count(norm_count(old(self).change_count as int)),
    {
        // After a change, unsaved undos count positively.
        if self.change_count < 0 {
            if self.change_count == i32::MIN {
                self.change_count = i32::MAX;
            } else {
                self.change_count = -self.change_count;
            }
        }

        let ghost rows0 = model@;
        let ghost undo0 = self.undo_commands@;
        let len = cmds.len();
        let mut k: usize = 0;
        proof {
            assert(cmds@.skip(0) =~= cmds@);
            assert(cmds@.take(0) =~= Seq::<EditCommand>::empty());
        }
        while k < len
            invariant
                k <= len,
                len == cmds@.len(),
                model.wf(),
                model.rowoff == old(model).rowoff,
                model.coloff == old(model).coloff,
                model.status_msg == old(model).status_msg,
                model.mode == old(model).mode,
                model.dirty == old(model).dirty,
                model.text_selected == old(model).text_selected,
                group_valid(model@, cmds@.skip(k as int)),
                model@ == apply_group(rows0, cmds@.take(k as int)),
                stack_valid(model@, self.undo_commands@),
                self.undo_commands@.len() == undo0.len() + k,
                self.undo_commands@.take(undo0.len() as int) == undo0,
                group_inverses_ok(
                    rows0,
                    cmds@.take(k as int),
                    self.undo_commands@.skip(undo0.len() as int),
                ),
                self.undo_steps == old(self).undo_steps,
                self.redo_commands == old(self).redo_commands,
                self.redo_steps == old(self).redo_steps,
                self.change_count == norm_count(old(self).change_count as int),
                sum_steps(self.undo_steps@) == undo0.len(),
                stack_valid(rows0, undo0),
                lines_wf(rows0),
                model.buf.spec_meta() == old(model).buf.spec_meta(),
            decreases len - k,
        {
            let ghost rows_k = model@;
            let cmd_ref = &cmds[k];
            proof {
                assert(cmds@.skip(k as int)[0] == cmds@[k as int]);
                assert(cmd_valid(model@, cmds@[k as int]));
            }
            let ghost prev_stack = self.undo_commands@;
            let undo_cmd = cmd_ref.execute(model);
            proof {
                lemma_command_inverse(rows_k, cmds@[k as int], undo_cmd);
                assert(cmds@.skip(k as int).drop_first() =~= cmds@.skip(k + 1));
            }
            self.undo_commands.push(undo_cmd);
            proof {
                assert(self.undo_commands@.last() == undo_cmd);
                assert(self.undo_commands@.drop_last() =~= prev_stack);
                assert(apply_cmd(model@, undo_cmd) == rows_k);
                assert(stack_valid(model@, self.undo_commands@));
                assert(self.undo_commands@.take(undo0.len() as int) =~= undo0);
                assert(model@ =~~= apply_group(rows0, cmds@.take(k + 1))) by {
                    lemma_apply_group_snoc(rows0, cmds@.take(k + 1));
                    assert(cmds@.take(k + 1).drop_last() =~= cmds@.take(k as int));
                    assert(cmds@.take(k + 1).last() == cmds@[k as int]);
                }
                assert(group_inverses_ok(
                    rows0,
                    cmds@.take(k + 1),
                    self.undo_commands@.skip(undo0.len() as int),
                )) by {
                    lemma_group_inverses_snoc(
                        rows0,
                        cmds@.take(k as int),
                        prev_stack.skip(undo0.len() as int),
                        cmds@[k as int],
                        undo_cmd,
                    );
                    assert(cmds@.take(k as int).push(cmds@[k as int]) =~= cmds@.take(k + 1));
                    assert(self.undo_commands@.skip(undo0.len() as int) =~= prev_stack.skip(
                        undo0.len() as int,
                    ).push(undo_cmd));
                }
            }
            k = k + 1;
        }
        self.redo_commands.clear();
        self.redo_steps.clear();
        proof {
            assert(cmds@.take(len as int) =~= cmds@);
            lemma_sum_steps_push(self.undo_steps@, len);
        }
        self.undo_steps.push(len);

        if self.change_count < i32::MAX {
            self.change_count = self.change_count + 1;
        }
    }

    /// Tries to absorb a freshly typed alphabetic character into the undo
    /// entry on top of the stack; `rows0` is the buffer the character was
    /// typed into, and the model already holds the character.
    fn try_merge_char_cmd(
        &mut self,
        new_c: char,
        new_location: (usize, usize),
        model: &mut Model,
        Ghost(rows0): Ghost<Seq<Seq<char>>>,
    ) -> (merged: bool)
        requires
            old(model).wf(),
            lines_wf(rows0),
            cmd_valid(rows0, EditCommand::InsertChar { location: new_location, c: new_c }),
            old(model)@ == apply_cmd(
                rows0,
                EditCommand::InsertChar { location: new_location, c: new_c },
            ),
            stack_valid(rows0, old(self).undo_commands@),
        ensures
            *final(model) == *old(model),
            ({
                let res = merge_result(
                    old(model)@,
                    old(self).undo_commands@,
                    EditCommand::InsertChar { location: new_location, c: new_c },
                );
                &&& merged == (res is Some)
                &&& merged ==> final(self).undo_commands@ == res->Some_0
                &&& !merged ==> final(self).undo_commands@ == old(self).undo_commands@
            }),
            merged ==> stack_valid(final(model)@, final(self).undo_commands@),
            final(self).undo_steps == old(self).undo_steps,
            final(self).redo_commands == old(self).redo_commands,
            final(self).redo_steps == old(self).redo_steps,
            final(self).change_count == old(self).change_count,
    {
        let ghost rows1 = model@;
        if !char_is_alphabetic(new_c) {
            return false;
        }
        if self.undo_commands.len() == 0 {
            return false;
        }
        let ghost stack0 = self.undo_commands@;
        let top = self.undo_commands.pop().unwrap();
        match top {
            // A run already merged into a range: extend the range by one.
            EditCommand::DeleteString { start, end } => {
                if end.0 != new_location.0 || end.1 != new_location.1 {
                    self.undo_commands.push(EditCommand::DeleteString { start, end });
                    proof {
                        assert(self.undo_commands@ =~= stack0);
                    }
                    return false;
                }
                let row_len = model.row_len(end.1);
                proof {
                    assert(rows1 == insert_char_spec(
                        rows0,
                        new_location.0 as int,
                        new_location.1 as int,
                        new_c,
                    ));
                    assert(end.0 < row_len);
                }
                let merged_cmd = EditCommand::DeleteString { start, end: (end.0 + 1, end.1) };
                self.undo_commands.push(merged_cmd);
                proof {
                    let ghost mtop = EditCommand::DeleteString {
                        start,
                        end: ((end.0 + 1) as usize, end.1),
                    };
                    assert(self.undo_commands@ =~= stack0.update(stack0.len() - 1, mtop));
                    // The widened range deletes the old range plus the fresh
                    // character: undoing it steps over both at once.
                    assert(cmd_valid(rows0, top));
                    assert(cmd_valid(rows1, mtop));
                    assert(apply_cmd(rows1, mtop) =~~= apply_cmd(rows0, top));
                    assert(self.undo_commands@.last() == mtop);
                    assert(self.undo_commands@.drop_last() =~= stack0.drop_last());
                    assert(stack0.last() == top);
                    assert(stack_valid(apply_cmd(rows0, top), stack0.drop_last()));
                    assert(stack_valid(rows1, self.undo_commands@));
                }
                true
            },
            // A single deleted character: fuse the two characters into a range.
            EditCommand::DeleteChar { location } => {
                if location.0 == 0 {
                    self.undo_commands.push(EditCommand::DeleteChar { location });
                    proof {
                        assert(self.undo_commands@ =~= stack0);
                    }
                    return false;
                }
                let c = model.get_char_at(location);
                if !char_is_alphabetic(c) {
                    self.undo_commands.push(EditCommand::DeleteChar { location });
                    proof {
                        assert(self.undo_commands@ =~= stack0);
                    }
                    return false;
                }
                if location.0 != new_location.0 || location.1 != new_location.1 {
                    self.undo_commands.push(EditCommand::DeleteChar { location });
                    proof {
                        assert(self.undo_commands@ =~= stack0);
                    }
                    return false;
                }
                proof {
                    assert(rows1 == insert_char_spec(
                        rows0,
                        new_location.0 as int,
                        new_location.1 as int,
                        new_c,
                    ));
                    assert(cmd_valid(rows0, top));
                    assert(location.0 < rows1[location.1 as int].len());
                }
                let cur_row_len = model.row_len(location.1);
                proof {
                    assert(location.0 < cur_row_len);
                }
                let merged_cmd = EditCommand::DeleteString {
                    start: (location.0 - 1, location.1),
                    end: (location.0 + 1, location.1),
                };
                self.undo_commands.push(merged_cmd);
                proof {
                    let ghost mtop = EditCommand::DeleteString {
                        start: ((location.0 - 1) as usize, location.1),
                        end: ((location.0 + 1) as usize, location.1),
                    };
                    assert(self.undo_commands@ =~= stack0.drop_last().push(mtop));
                    // Deleting both characters at once undoes the fused pair.
                    assert(cmd_valid(rows1, mtop));
                    assert(apply_cmd(rows1, mtop) =~~= apply_cmd(rows0, top));
                    assert(self.undo_commands@.last() == mtop);
                    assert(self.undo_commands@.drop_last() =~= stack0.drop_last());
                    assert(stack0.last() == top);
                    assert(stack_valid(apply_cmd(rows0, top), stack0.drop_last()));
                    assert(stack_valid(rows1, self.undo_commands@));
                }
                true
            },
            other => {
                self.undo_commands.push(other);
                proof {
                    assert(self.undo_commands@ =~= stack0);
                }
                false
            },
        }
    }

    /// Undoes one user-visible step: pops one run length and executes that
    /// many commands off the undo stack, most recent first, collecting their
    /// inverses onto the redo stack as one run. Does nothing if there is no
    /// step to undo.
    #[verifier::rlimit(60)]
    pub fn execute_undo(&mut self, model: &mut Model)
        requires
            old(self).wf(old(model)@),
            old(model).wf(),
        ensures
            final(self).wf(final(model)@),
            final(model).wf(),
            final(model).buf.spec_meta() == old(model).buf.spec_meta(),
            final(model).rowoff == old(model).rowoff,
            final(model).coloff == old(model).coloff,
            final(model).status_msg == old(model).status_msg,
            final(model).mode == old(model).mode,
            final(model).dirty == old(model).dirty,
            final(model).text_selected == old(model).text_selected,
            old(self).undo_steps@.len() == 0 ==> *final(model) == *old(model)
                && final(self).undo_commands == old(self).undo_commands
                && final(self).undo_steps@ == old(self).undo_steps@
                && final(self).redo_commands == old(self).redo_commands
                && final(self).redo_steps == old(self).redo_steps
                && final(self).change_count == old(self).change_count,
            old(self).undo_steps@.len() > 0 ==> ({
                let n = old(self).undo_steps@.last() as int;
                let len0 = old(self).undo_commands@.len() as int;
                let popped = old(self).undo_commands@.skip(len0 - n);
                &&& n <= len0
                &&& final(self).undo_steps@ == old(self).undo_steps@.drop_last()
                &&& final(self).undo_commands@ == old(self).undo_commands@.take(len0 - n)
                &&& final(model)@ == apply_stack(old(model)@, popped)
                &&& (final(model).cx as int, final(model).cy as int) == apply_stack_cursor(
                    old(model)@,
                    popped,
                    (old(model).cx as int, old(model).cy as int),
                )
                &&& final(self).redo_steps@ == old(self).redo_steps@.push(
                    old(self).undo_steps@.last(),
                )
                &&& final(self).redo_commands@.take(old(self).redo_commands@.len() as int) == old(
                    self,
                ).redo_commands@
                &&& redo_chain_ok(
                    old(model)@,
                    popped,
                    final(self).redo_commands@.skip(old(self).redo_commands@.len() as int),
                )
                &&& final(self).change_count == drop_count(old(self).change_count as int)
            }),
    {
        let popped_step = self.undo_steps.pop();
        match popped_step {
            Option::None => {
            },
            Option::Some(len) => {
                let ghost rows_start = model@;
                let ghost undo0 = self.undo_commands@;
                let ghost redo0 = self.redo_commands@;
                let ghost cur0 = (old(model).cx as int, old(model).cy as int);
                let ghost len0 = undo0.len() as int;
                proof {
                    lemma_last_step_le_sum(old(self).undo_steps@);
                    assert(sum_steps(old(self).undo_steps@.drop_last()) == sum_steps(
                        old(self).undo_steps@,
                    ) - len);
                    lemma_sum_steps_nonneg(old(self).undo_steps@.drop_last());
                    assert(len <= len0);
                    assert(undo0.skip(len0 - 0) =~= Seq::<EditCommand>::empty());
                    assert(redo0.skip(redo0.len() as int) =~= Seq::<EditCommand>::empty());
                }
                let mut k: usize = 0;
                while k < len
                    invariant
                        k <= len,
                        len <= len0,
                        len0 == undo0.len(),
                        model.wf(),
                        model.buf.spec_meta() == old(model).buf.spec_meta(),
                        model.rowoff == old(model).rowoff,
                        model.coloff == old(model).coloff,
                        model.status_msg == old(model).status_msg,
                        model.mode == old(model).mode,
                        model.dirty == old(model).dirty,
                        model.text_selected == old(model).text_selected,
                        lines_wf(rows_start),
                        stack_valid(rows_start, undo0),
                        stack_valid(rows_start, redo0),
                        self.undo_commands@ == undo0.take(len0 - k),
                        model@ == apply_stack(rows_start, undo0.skip(len0 - k)),
                        (model.cx as int, model.cy as int) == apply_stack_cursor(
                            rows_start,
                            undo0.skip(len0 - k),
                            cur0,
                        ),
                        stack_valid(model@, self.undo_commands@),
                        stack_valid(model@, self.redo_commands@),
                        self.redo_commands@.len() == redo0.len() + k,
                        self.redo_commands@.take(redo0.len() as int) == redo0,
                        redo_chain_ok(
                            rows_start,
                            undo0.skip(len0 - k),
                            self.redo_commands@.skip(redo0.len() as int),
                        ),
                        self.undo_steps@ == old(self).undo_steps@.drop_last(),
                        self.redo_steps == old(self).redo_steps,
                        self.change_count == old(self).change_count,
                    decreases len - k,
                {
                    let ghost rows_k = model@;
                    let ghost popped_k = undo0.skip(len0 - k);
                    let cmd = self.undo_commands.pop().unwrap();
                    proof {
                        assert(undo0.take(len0 - k).last() == undo0[len0 - k - 1]);
                        assert(undo0.take(len0 - k).drop_last() =~= undo0.take(len0 - (k + 1)));
                        assert(cmd_valid(rows_k, cmd));
                    }
                    let ghost redo_prev = self.redo_commands@;
                    let ghost pushed_k = redo_prev.skip(redo0.len() as int);
                    let redo_cmd = cmd.execute(model);
                    proof {
                        lemma_command_inverse(rows_k, cmd, redo_cmd);
                        assert(seq![cmd] + popped_k =~= undo0.skip(len0 - (k + 1)));
                        lemma_apply_stack_prepend(rows_start, popped_k, cmd, cur0);
                        lemma_redo_chain_extend(rows_start, popped_k, pushed_k, cmd, redo_cmd);
                    }
                    self.redo_commands.push(redo_cmd);
                    proof {
                        assert(self.redo_commands@.take(redo0.len() as int) =~= redo0);
                        assert(self.redo_commands@.skip(redo0.len() as int) =~= pushed_k.push(
                            redo_cmd,
                        ));
                        assert(self.redo_commands@.last() == redo_cmd);
                        assert(self.redo_commands@.drop_last() =~= redo_prev);
                        assert(apply_cmd(model@, redo_cmd) == rows_k);
                        assert(stack_valid(model@, self.redo_commands@));
                    }
                    k = k + 1;
                }
                proof {
                    lemma_sum_steps_push(self.redo_steps@, len);
                }
                self.redo_steps.push(len);

                if self.change_count > i32::MIN {
                    self.change_count = self.change_count - 1;
                }
            },
        }
    }

    /// Redoes one user-visible step: pops one run length and executes that
    /// many commands off the redo stack, most recent first, collecting their
    /// inverses onto the undo stack as one run. Does nothing if there is no
    /// step to redo.
    #[verifier::rlimit(60)]
    pub fn execute_redo(&mut self, model: &mut Model)
        requires
            old(self).wf(old(model)@),
            old(model).wf(),
        ensures
            final(self).wf(final(model)@),
            final(model).wf(),
            final(model).buf.spec_meta() == old(model).buf.spec_meta(),
            final(model).rowoff == old(model).rowoff,
            final(model).coloff == old(model).coloff,
            final(model).status_msg == old(model).status_msg,
            final(model).mode == old(model).mode,
            final(model).dirty == old(model).dirty,
            final(model).text_selected == old(model).text_selected,
            old(self).redo_steps@.len() == 0 ==> *final(model) == *old(model)
                && final(self).undo_commands == old(self).undo_commands
                && final(self).undo_steps == old(self).undo_steps
                && final(self).redo_commands == old(self).redo_commands
                && final(self).redo_steps@ == old(self).redo_steps@
                && final(self).change_count == old(self).change_count,
            old(self).redo_steps@.len() > 0 ==> ({
                let n = old(self).redo_steps@.last() as int;
                let len0 = old(self).redo_commands@.len() as int;
                let popped = old(self).redo_commands@.skip(len0 - n);
                &&& n <= len0
                &&& final(self).redo_steps@ == old(self).redo_steps@.drop_last()
                &&& final(self).redo_commands@ == old(self).redo_commands@.take(len0 - n)
                &&& final(model)@ == apply_stack(old(model)@, popped)
                &&& (final(model).cx as int, final(model).cy as int) == apply_stack_cursor(
                    old(model)@,
                    popped,
                    (old(model).cx as int, old(model).cy as int),
                )
                &&& final(self).undo_steps@ == old(self).undo_steps@.push(
                    old(self).redo_steps@.last(),
                )
                &&& final(self).undo_commands@.take(old(self).undo_commands@.len() as int) == old(
                    self,
                ).undo_commands@
                &&& redo_chain_ok(
                    old(model)@,
                    popped,
                    final(self).undo_commands@.skip(old(self).undo_commands@.len() as int),
                )
                &&& final(self).change_count == bump_count(old(self).change_count as int)
            }),
    {
        let popped_step = self.redo_steps.pop();
        match popped_step {
            Option::None => {
            },
            Option::Some(len) => {
                let ghost rows_start = model@;
                let ghost redo0 = self.redo_commands@;
                let ghost undo0 = self.undo_commands@;
                let ghost cur0 = (old(model).cx as int, old(model).cy as int);
                let ghost len0 = redo0.len() as int;
                proof {
                    lemma_last_step_le_sum(old(self).redo_steps@);
                    assert(sum_steps(old(self).redo_steps@.drop_last()) == sum_steps(
                        old(self).redo_steps@,
                    ) - len);
                    lemma_sum_steps_nonneg(old(self).redo_steps@.drop_last());
                    assert(len <= len0);
                    assert(redo0.skip(len0 - 0) =~= Seq::<EditCommand>::empty());
                    assert(undo0.skip(undo0.len() as int) =~= Seq::<EditCommand>::empty());
                }
                let mut k: usize = 0;
                while k < len
                    invariant
                        k <= len,
                        len <= len0,
                        len0 == redo0.len(),
                        model.wf(),
                        model.buf.spec_meta() == old(model).buf.spec_meta(),
                        model.rowoff == old(model).rowoff,
                        model.coloff == old(model).coloff,
                        model.status_msg == old(model).status_msg,
                        model.mode == old(model).mode,
                        model.dirty == old(model).dirty,
                        model.text_selected == old(model).text_selected,
                        lines_wf(rows_start),
                        stack_valid(rows_start, redo0),
                        stack_valid(rows_start, undo0),
                        self.redo_commands@ == redo0.take(len0 - k),
                        model@ == apply_stack(rows_start, redo0.skip(len0 - k)),
                        (model.cx as int, model.cy as int) == apply_stack_cursor(
                            rows_start,
                            redo0.skip(len0 - k),
                            cur0,
                        ),
                        stack_valid(model@, self.redo_commands@),
                        stack_valid(model@, self.undo_commands@),
                        self.undo_commands@.len() == undo0.len() + k,
                        self.undo_commands@.take(undo0.len() as int) == undo0,
                        redo_chain_ok(
                            rows_start,
                            redo0.skip(len0 - k),
                            self.undo_commands@.skip(undo0.len() as int),
                        ),
                        self.redo_steps@ == old(self).redo_steps@.drop_last(),
                        self.undo_steps == old(self).undo_steps,
                        self.change_count == old(self).change_count,
                    decreases len - k,
                {
                    let ghost rows_k = model@;
                    let ghost popped_k = redo0.skip(len0 - k);
                    let cmd = self.redo_commands.pop().unwrap();
                    proof {
                        assert(redo0.take(len0 - k).last() == redo0[len0 - k - 1]);
                        assert(redo0.take(len0 - k).drop_last() =~= redo0.take(len0 - (k + 1)));
                        assert(cmd_valid(rows_k, cmd));
                    }
                    let ghost undo_prev = self.undo_commands@;
                    let ghost pushed_k = undo_prev.skip(undo0.len() as int);
                    let undo_cmd = cmd.execute(model);
                    proof {
                        lemma_command_inverse(rows_k, cmd, undo_cmd);
                        assert(seq![cmd] + popped_k =~= redo0.skip(len0 - (k + 1)));
                        lemma_apply_stack_prepend(rows_start, popped_k, cmd, cur0);
                        lemma_redo_chain_extend(rows_start, popped_k, pushed_k, cmd, undo_cmd);
                    }
                    self.undo_commands.push(undo_cmd);
                    proof {
                        assert(self.undo_commands@.take(undo0.len() as int) =~= undo0);
                        assert(self.undo_commands@.skip(undo0.len() as int) =~= pushed_k.push(
                            undo_cmd,
                        ));
                        assert(self.undo_commands@.last() == undo_cmd);
                        assert(self.undo_commands@.drop_last() =~= undo_prev);
                        assert(apply_cmd(model@, undo_cmd) == rows_k);
                        assert(stack_valid(model@, self.undo_commands@));
                    }
                    k = k + 1;
                }
                proof {
                    lemma_sum_steps_push(self.undo_steps@, len);
                }
                self.undo_steps.push(len);

                if self.change_count < i32::MAX {
                    self.change_count = self.change_count + 1;
                }
            },
        }
    }

    /// Marks the model as saved: clears the unsaved-change count.
    pub fn reset_change_count(&mut self)
        ensures
            final(self).change_count == 0,
            final(self).undo_commands == old(self).undo_commands,
            final(self).undo_steps == old(self).undo_steps,
            final(self).redo_commands == old(self).redo_commands,
            final(self).redo_steps == old(self).redo_steps,
    {
        self.change_count = 0;
    }
}

/// Applying a group is applying its front and then its last command.
pub proof fn lemma_apply_group_snoc(rows: Seq<Seq<char>>, cmds: Seq<EditCommand>)
    requires
        cmds.len() >= 1,
    ensures
        apply_group(rows, cmds) == apply_cmd(apply_group(rows, cmds.drop_last()), cmds.last()),
    decreases cmds.len(),
{
    if cmds.len() == 1 {
        assert(cmds.drop_last() =~= Seq::<EditCommand>::empty());
        assert(cmds.drop_first() =~= Seq::<EditCommand>::empty());
        assert(cmds[0] == cmds.last());
        assert(apply_group(rows, cmds) == apply_group(
            apply_cmd(rows, cmds[0]),
            cmds.drop_first(),
        ));
        assert(apply_group(apply_cmd(rows, cmds[0]), Seq::<EditCommand>::empty()) == apply_cmd(
            rows,
            cmds[0],
        ));
        assert(apply_group(rows, Seq::<EditCommand>::empty()) == rows);
    } else {
        lemma_apply_group_snoc(apply_cmd(rows, cmds[0]), cmds.drop_first());
        assert(cmds.drop_first().drop_last() =~= cmds.drop_last().drop_first());
        assert(cmds.drop_first().last() == cmds.last());
        assert(cmds.drop_last()[0] == cmds[0]);
        assert(apply_group(rows, cmds) == apply_group(apply_cmd(rows, cmds[0]), cmds.drop_first()));
        assert(apply_group(rows, cmds.drop_last()) == apply_group(
            apply_cmd(rows, cmds[0]),
            cmds.drop_last().drop_first(),
        ));
        assert(apply_group(apply_cmd(rows, cmds[0]), cmds.drop_last().drop_first()) == apply_group(
            apply_cmd(rows, cmds[0]),
            cmds.drop_first().drop_last(),
        ));
    }
}

/// `pushed` holds exactly the inverses of the group's commands, pairwise in
/// execution order: the inverse of `cmds[j]` taken against the buffer the
/// first `j` commands produce.
pub open spec fn group_inverses_ok(
    rows: Seq<Seq<char>>,
    cmds: Seq<EditCommand>,
    pushed: Seq<EditCommand>,
) -> bool
    decreases cmds.len(),
{
    if cmds.len() == 0 {
        pushed.len() == 0
    } else {
        &&& pushed.len() == cmds.len()
        &&& inverse_ok(rows, cmds[0], pushed[0])
        &&& group_inverses_ok(apply_cmd(rows, cmds[0]), cmds.drop_first(), pushed.drop_first())
    }
}

/// Extending an inverse chain by the group's next command and its inverse.
pub proof fn lemma_group_inverses_snoc(
    rows: Seq<Seq<char>>,
    cmds: Seq<EditCommand>,
    pushed: Seq<EditCommand>,
    c: EditCommand,
    i: EditCommand,
)
    requires
        group_inverses_ok(rows, cmds, pushed),
        inverse_ok(apply_group(rows, cmds), c, i),
    ensures
        group_inverses_ok(rows, cmds.push(c), pushed.push(i)),
    decreases cmds.len(),
{
    if cmds.len() == 0 {
        assert(cmds.push(c)[0] == c);
        assert(pushed.push(i)[0] == i);
        assert(cmds.push(c).drop_first() =~= Seq::<EditCommand>::empty());
        assert(pushed.push(i).drop_first() =~= Seq::<EditCommand>::empty());
        assert(apply_group(rows, cmds) == rows);
        assert(group_inverses_ok(
            apply_cmd(rows, c),
            Seq::<EditCommand>::empty(),
            Seq::<EditCommand>::empty(),
        ));
    } else {
        assert(cmds.push(c)[0] == cmds[0]);
        assert(pushed.push(i)[0] == pushed[0]);
        assert(cmds.push(c).drop_first() =~= cmds.drop_first().push(c));
        assert(pushed.push(i).drop_first() =~= pushed.drop_first().push(i));
        assert(apply_group(rows, cmds) == apply_group(apply_cmd(rows, cmds[0]), cmds.drop_first()));
        lemma_group_inverses_snoc(
            apply_cmd(rows, cmds[0]),
            cmds.drop_first(),
            pushed.drop_first(),
            c,
            i,
        );
    }
}

/// Peeling the last pair off an inverse chain.
pub proof fn lemma_group_inverses_unsnoc(
    rows: Seq<Seq<char>>,
    cmds: Seq<EditCommand>,
    pushed: Seq<EditCommand>,
)
    requires
        cmds.len() >= 1,
        group_inverses_ok(rows, cmds, pushed),
    ensures
        group_inverses_ok(rows, cmds.drop_last(), pushed.drop_last()),
        inverse_ok(apply_group(rows, cmds.drop_last()), cmds.last(), pushed.last()),
    decreases cmds.len(),
{
    if cmds.len() == 1 {
        assert(cmds.drop_last() =~= Seq::<EditCommand>::empty());
        assert(pushed.drop_last() =~= Seq::<EditCommand>::empty());
        assert(cmds[0] == cmds.last());
        assert(pushed[0] == pushed.last());
        assert(apply_group(rows, cmds.drop_last()) == rows);
    } else {
        lemma_group_inverses_unsnoc(apply_cmd(rows, cmds[0]), cmds.drop_first(), pushed.drop_first());
        assert(cmds.drop_first().drop_last() =~= cmds.drop_last().drop_first());
        assert(pushed.drop_first().drop_last() =~= pushed.drop_last().drop_first());
        assert(cmds.drop_first().last() == cmds.last());
        assert(pushed.drop_first().last() == pushed.last());
        assert(cmds.drop_last()[0] == cmds[0]);
        assert(pushed.drop_last()[0] == pushed[0]);
        assert(apply_group(rows, cmds.drop_last()) == apply_group(
            apply_cmd(rows, cmds[0]),
            cmds.drop_last().drop_first(),
        ));
        assert(apply_group(apply_cmd(rows, cmds[0]), cmds.drop_last().drop_first()) == apply_group(
            apply_cmd(rows, cmds[0]),
            cmds.drop_first().drop_last(),
        ));
    }
}

/// The group can be executed in order against the buffer.
pub proof fn lemma_group_valid_unsnoc(rows: Seq<Seq<char>>, cmds: Seq<EditCommand>)
    requires
        cmds.len() >= 1,
        group_valid(rows, cmds),
    ensures
        group_valid(rows, cmds.drop_last()),
        cmd_valid(apply_group(rows, cmds.drop_last()), cmds.last()),
    decreases cmds.len(),
{
    if cmds.len() == 1 {
        assert(cmds.drop_last() =~= Seq::<EditCommand>::empty());
        assert(cmds[0] == cmds.last());
        assert(apply_group(rows, cmds.drop_last()) == rows);
    } else {
        lemma_group_valid_unsnoc(apply_cmd(rows, cmds[0]), cmds.drop_first());
        assert(cmds.drop_first().drop_last() =~= cmds.drop_last().drop_first());
        assert(cmds.drop_first().last() == cmds.last());
        assert(cmds.drop_last()[0] == cmds[0]);
        assert(apply_group(rows, cmds.drop_last()) == apply_group(
            apply_cmd(rows, cmds[0]),
            cmds.drop_last().drop_first(),
        ));
        assert(apply_group(apply_cmd(rows, cmds[0]), cmds.drop_last().drop_first()) == apply_group(
            apply_cmd(rows, cmds[0]),
            cmds.drop_first().drop_last(),
        ));
    }
}

/// One undo reverses a whole group: executing the collected inverses in
/// reverse order of collection, against the buffer the group produced,
/// restores the buffer the group started from.
pub proof fn lemma_group_undo_round_trip(
    rows: Seq<Seq<char>>,
    cmds: Seq<EditCommand>,
    pushed: Seq<EditCommand>,
)
    requires
        lines_wf(rows),
        group_valid(rows, cmds),
        group_inverses_ok(rows, cmds, pushed),
    ensures
        apply_stack(apply_group(rows, cmds), pushed) == rows,
    decreases cmds.len(),
{
    if cmds.len() == 0 {
        assert(apply_group(rows, cmds) == rows);
        assert(pushed.len() == 0);
        assert(apply_stack(rows, pushed) == rows);
    } else {
        let front = cmds.drop_last();
        let r_last = apply_group(rows, front);
        lemma_group_inverses_unsnoc(rows, cmds, pushed);
        lemma_group_valid_unsnoc(rows, cmds);
        lemma_apply_group_snoc(rows, cmds);
        lemma_group_lines_wf(rows, front);
        lemma_command_inverse(r_last, cmds.last(), pushed.last());
        assert(apply_stack(apply_group(rows, cmds), pushed) == apply_stack(
            apply_cmd(apply_group(rows, cmds), pushed.last()),
            pushed.drop_last(),
        ));
        assert(apply_cmd(apply_group(rows, cmds), pushed.last()) == r_last);
        lemma_group_undo_round_trip(rows, front, pushed.drop_last());
    }
}

/// Executing a valid group keeps every row a proper line.
pub proof fn lemma_group_lines_wf(rows: Seq<Seq<char>>, cmds: Seq<EditCommand>)
    requires
        lines_wf(rows),
        group_valid(rows, cmds),
    ensures
        lines_wf(apply_group(rows, cmds)),
    decreases cmds.len(),
{
    if cmds.len() > 0 {
        crate::edit::lemma_cmd_lines_wf(rows, cmds[0]);
        lemma_group_lines_wf(apply_cmd(rows, cmds[0]), cmds.drop_first());
    }
}

/// Every command of the group can be executed, in order, each against the
/// buffer the previous ones produce.
pub open spec fn group_valid(rows: Seq<Seq<char>>, cmds: Seq<EditCommand>) -> bool
    decreases cmds.len(),
{
    cmds.len() == 0 || {
        &&& cmd_valid(rows, cmds[0])
        &&& group_valid(apply_cmd(rows, cmds[0]), cmds.drop_first())
    }
}

/// The buffer after executing the commands of the group in order.
pub open spec fn apply_group(rows: Seq<Seq<char>>, cmds: Seq<EditCommand>) -> Seq<Seq<char>>
    decreases cmds.len(),
{
    if cmds.len() == 0 {
        rows
    } else {
        apply_group(apply_cmd(rows, cmds[0]), cmds.drop_first())
    }
}

} // verus!
