//! The inputs and the output of one run.
//!
//! A run is given two queues of words, the public and the private inputs,
//! which the guest reads from the front, and it leaves behind a list of
//! words that it wrote, in the order in which it wrote them.

use vstd::prelude::*;
use crate::error::HostError;

verus! {

/// The input queues and the output of a run.
pub struct Context {
    /// The public inputs that have not been read yet, next one first.
    pub public_inputs: Vec<u64>,
    /// The private inputs that have not been read yet, next one first.
    pub private_inputs: Vec<u64>,
    /// The words written so far, oldest first.
    pub output: Vec<u64>,
}

/// What a [`Context`] holds, as a mathematical value.
pub struct ContextView {
    pub public_inputs: Seq<u64>,
    pub private_inputs: Seq<u64>,
    pub output: Seq<u64>,
}

impl View for Context {
    type V = ContextView;

    open spec fn view(&self) -> ContextView {
        ContextView {
            public_inputs: self.public_inputs@,
            private_inputs: self.private_inputs@,
            output: self.output@,
        }
    }
}

impl ContextView {
    /// Reading one public input: the front of the queue and the run without
    /// it, or `InputExhausted` and the run as it was.
    pub open spec fn pop_public(self) -> (Result<u64, HostError>, ContextView) {
        if self.public_inputs.len() == 0 {
            (Err(HostError::InputExhausted), self)
        } else {
            (
                Ok(self.public_inputs[0]),
                ContextView { public_inputs: self.public_inputs.drop_first(), ..self },
            )
        }
    }

    /// Reading one private input: the front of the queue and the run without
    /// it, or `InputExhausted` and the run as it was.
    pub open spec fn pop_private(self) -> (Result<u64, HostError>, ContextView) {
        if self.private_inputs.len() == 0 {
            (Err(HostError::InputExhausted), self)
        } else {
            (
                Ok(self.private_inputs[0]),
                ContextView { private_inputs: self.private_inputs.drop_first(), ..self },
            )
        }
    }

    /// Reading one input from the queue that `arg` selects: 1 the public
    /// one, 0 the private one. Any other selector is a
    /// `PreconditionViolation`.
    pub open spec fn input(self, arg: i32) -> (Result<u64, HostError>, ContextView) {
        if arg == 1 {
            self.pop_public()
        } else if arg == 0 {
            self.pop_private()
        } else {
            (Err(HostError::PreconditionViolation), self)
        }
    }

    /// The run after `value` has been written.
    pub open spec fn written(self, value: u64) -> ContextView {
        ContextView { output: self.output.push(value), ..self }
    }

    /// The run after each of `values` has been written, first to last.
    pub open spec fn written_all(self, values: Seq<u64>) -> ContextView
        decreases values.len(),
    {
        if values.len() == 0 {
            self
        } else {
            self.written_all(values.drop_last()).written(values.last())
        }
    }

    /// Asking for the output: the words written so far, and the run as it
    /// was.
    pub open spec fn dumped(self) -> (Seq<u64>, ContextView) {
        (self.output, self)
    }

    /// The run after `count` public inputs have been asked for.
    pub open spec fn after_public_reads(self, count: nat) -> ContextView
        decreases count,
    {
        if count == 0 {
            self
        } else {
            self.after_public_reads((count - 1) as nat).pop_public().1
        }
    }

    /// The run after `count` private inputs have been asked for.
    pub open spec fn after_private_reads(self, count: nat) -> ContextView
        decreases count,
    {
        if count == 0 {
            self
        } else {
            self.after_private_reads((count - 1) as nat).pop_private().1
        }
    }
}

impl Context {
    /// Starts a run with the given inputs and no output.
    pub fn new(public_inputs: Vec<u64>, private_inputs: Vec<u64>) -> (context: Self)
        ensures
            context@ == (ContextView {
                public_inputs: public_inputs@,
                private_inputs: private_inputs@,
                output: Seq::empty(),
            }),
    {
        Context { public_inputs, private_inputs, output: Vec::new() }
    }

    /// Takes the next public input off its queue.
    ///
    /// Fails with `InputExhausted`, and changes nothing, if none is left.
    pub fn pop_public(&mut self) -> (value: Result<u64, HostError>)
        ensures
            (value, final(self)@) == old(self)@.pop_public(),
    {
        if self.public_inputs.is_empty() {
            return Err(HostError::InputExhausted);
        }
        let value = self.public_inputs.remove(0);
        assert(self.public_inputs@ =~= old(self)@.public_inputs.drop_first());
        Ok(value)
    }

    /// Takes the next private input off its queue.
    ///
    /// Fails with `InputExhausted`, and changes nothing, if none is left.
    pub fn pop_private(&mut self) -> (value: Result<u64, HostError>)
        ensures
            (value, final(self)@) == old(self)@.pop_private(),
    {
        if self.private_inputs.is_empty() {
            return Err(HostError::InputExhausted);
        }
        let value = self.private_inputs.remove(0);
        assert(self.private_inputs@ =~= old(self)@.private_inputs.drop_first());
        Ok(value)
    }

    fn push_output(&mut self, value: u64)
        ensures
            final(self)@ == old(self)@.written(value),
    {
        self.output.push(value);
    }

    /// Reads one input: a public one if `arg` is 1, a private one if it is 0.
    ///
    /// Fails with `InputExhausted` if the queue is empty and with
    /// `PreconditionViolation` if `arg` is neither 0 nor 1; nothing changes
    /// then. The two queues differ in nothing but the words they hold.
    pub fn wasm_input(&mut self, arg: i32) -> (value: Result<u64, HostError>)
        ensures
            (value, final(self)@) == old(self)@.input(arg),
    {
        if arg == 1 {
            self.pop_public()
        } else if arg == 0 {
            self.pop_private()
        } else {
            Err(HostError::PreconditionViolation)
        }
    }

    /// Appends `value` to the output.
    pub fn wasm_output(&mut self, value: u64)
        ensures
            final(self)@ == old(self)@.written(value),
    {
        self.push_output(value);
    }

    /// A copy of the output written so far. The run is left as it is, so the
    /// output can be asked for again.
    pub fn dump_output(&mut self) -> (output: Vec<u64>)
        ensures
            (output@, final(self)@) == old(self)@.dumped(),
    {
        self.output.clone()
    }
}

/// Public inputs come out in the order in which the run was given them: the
/// read after `count` earlier ones returns input number `count`, and every
/// read after the last input fails with `InputExhausted`. Reading public
/// inputs touches neither the private inputs nor the output.
pub proof fn lemma_public_reads_in_order(run: ContextView, count: nat)
    ensures
        run.after_public_reads(count).pop_public().0 == (if count < run.public_inputs.len() {
            Ok::<u64, HostError>(run.public_inputs[count as int])
        } else {
            Err::<u64, HostError>(HostError::InputExhausted)
        }),
        run.after_public_reads(count).public_inputs == run.public_inputs.skip(
            if count < run.public_inputs.len() {
                count as int
            } else {
                run.public_inputs.len() as int
            },
        ),
        run.after_public_reads(count).private_inputs == run.private_inputs,
        run.after_public_reads(count).output == run.output,
    decreases count,
{
    if count == 0 {
        assert(run.public_inputs.skip(0) =~= run.public_inputs);
    } else {
        let before = (count - 1) as nat;
        lemma_public_reads_in_order(run, before);
        let prev = run.after_public_reads(before);
        if before < run.public_inputs.len() {
            assert(prev.public_inputs.drop_first() =~= run.public_inputs.skip(count as int));
        }
    }
}

/// Private inputs come out in the order in which the run was given them: the
/// read after `count` earlier ones returns input number `count`, and every
/// read after the last input fails with `InputExhausted`. Reading private
/// inputs touches neither the public inputs nor the output.
pub proof fn lemma_private_reads_in_order(run: ContextView, count: nat)
    ensures
        run.after_private_reads(count).pop_private().0 == (if count < run.private_inputs.len() {
            Ok::<u64, HostError>(run.private_inputs[count as int])
        } else {
            Err::<u64, HostError>(HostError::InputExhausted)
        }),
        run.after_private_reads(count).private_inputs == run.private_inputs.skip(
            if count < run.private_inputs.len() {
                count as int
            } else {
                run.private_inputs.len() as int
            },
        ),
        run.after_private_reads(count).public_inputs == run.public_inputs,
        run.after_private_reads(count).output == run.output,
    decreases count,
{
    if count == 0 {
        assert(run.private_inputs.skip(0) =~= run.private_inputs);
    } else {
        let before = (count - 1) as nat;
        lemma_private_reads_in_order(run, before);
        let prev = run.after_private_reads(before);
        if before < run.private_inputs.len() {
            assert(prev.private_inputs.drop_first() =~= run.private_inputs.skip(count as int));
        }
    }
}

/// The output is what was written, in the order of the writes: after a
/// number of writes, asking for the output gives the earlier output followed
/// by the written values, and asking again gives the same. The inputs are as
/// they were.
pub proof fn lemma_output_in_write_order(run: ContextView, values: Seq<u64>)
    ensures
        run.written_all(values).dumped().0 == run.output + values,
        run.written_all(values).dumped().1.dumped() == run.written_all(values).dumped(),
        run.written_all(values).public_inputs == run.public_inputs,
        run.written_all(values).private_inputs == run.private_inputs,
    decreases values.len(),
{
    if values.len() == 0 {
        assert(run.output + values =~= run.output);
    } else {
        lemma_output_in_write_order(run, values.drop_last());
        assert((run.output + values.drop_last()).push(values.last()) =~= run.output + values);
    }
}

} // verus!
