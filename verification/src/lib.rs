//! The guest's side of the boundary between a provable virtual machine and
//! its host.
//!
//! Everything that the guest exchanges with the host travels as single
//! 64-bit words: inputs and outputs of the run, roots and leaves of a Merkle
//! tree, keys and records of a store. This library keeps the state that turns
//! those words back into values, and says at which word the host is to be
//! asked for what. The calls to the host themselves are made by the caller.

use vstd::prelude::*;

pub mod accumulator;
pub mod context;
pub mod error;
pub mod oracle;
pub mod words;

use crate::context::context::{Context, ContextView};
use crate::context::datacache::{CacheContext, CacheView, RecordRequest, request_view};
use crate::context::merkle::{LeafRead, MerkleContext, MerkleView, read_view, update_view};
use crate::error::HostError;
use crate::oracle::LeafUpdate;

verus! {

/// All that one run keeps on the guest's side: its inputs and output, once
/// they have been set up, and its dealings with the record store and with the
/// Merkle tree.
pub struct HostState {
    pub context: Option<Context>,
    pub cache: CacheContext,
    pub merkle: MerkleContext,
}

/// What a [`HostState`] holds, as a mathematical value.
pub struct HostView {
    pub context: Option<ContextView>,
    pub cache: CacheView,
    pub merkle: MerkleView,
}

impl View for HostState {
    type V = HostView;

    open spec fn view(&self) -> HostView {
        HostView {
            context: match self.context {
                Some(context) => Some(context@),
                None => None,
            },
            cache: self.cache@,
            merkle: self.merkle@,
        }
    }
}

impl HostView {
    /// The state at the start of a process: the inputs are not set up yet,
    /// the record store is in fetch mode, and the tree has the root of 32
    /// zero bytes and the size parameter 0.
    pub open spec fn initial() -> HostView {
        HostView { context: None, cache: CacheView::initial(), merkle: MerkleView::initial(0) }
    }

    /// What holds of every state: its dealings with the record store and
    /// with the tree are well formed.
    pub open spec fn wf(self) -> bool {
        self.cache.wf() && self.merkle.wf()
    }

    /// The state after `run` has taken the place of the inputs and output.
    pub open spec fn with_run(self, run: ContextView) -> HostView {
        HostView { context: Some(run), ..self }
    }
}

impl HostState {
    /// The state at the start of a process.
    pub fn new() -> (state: Self)
        ensures
            state@ == HostView::initial(),
            state@.wf(),
    {
        HostState { context: None, cache: CacheContext::new(), merkle: MerkleContext::new(0) }
    }
}

/// Sets up the inputs of the run. Only the first call does anything: once a
/// run has its inputs, they stay.
pub fn wasm_setup_inputs(state: &mut HostState, public_inputs: Vec<u64>, private_inputs: Vec<u64>)
    ensures
        final(state)@ == (if old(state)@.context is None {
            old(state)@.with_run(
                ContextView {
                    public_inputs: public_inputs@,
                    private_inputs: private_inputs@,
                    output: Seq::empty(),
                },
            )
        } else {
            old(state)@
        }),
        final(state)@.wf(),
{
    proof {
        use_type_invariant(&state.cache);
        use_type_invariant(&state.merkle);
    }
    if state.context.is_none() {
        state.context = Some(Context::new(public_inputs, private_inputs));
    }
}

/// A copy of the output written so far; the state is left as it is.
///
/// Fails with `PreconditionViolation` if the inputs have not been set up.
pub fn wasm_dump_output(state: &mut HostState) -> (output: Result<Vec<u64>, HostError>)
    ensures
        final(state)@ == old(state)@,
        match old(state)@.context {
            Some(run) => output is Ok && output->Ok_0@ == run.output,
            None => output == Err::<Vec<u64>, HostError>(HostError::PreconditionViolation),
        },
        final(state)@.wf(),
{
    proof {
        use_type_invariant(&state.cache);
        use_type_invariant(&state.merkle);
    }
    match &mut state.context {
        Some(context) => Ok(context.dump_output()),
        None => Err(HostError::PreconditionViolation),
    }
}

/// Reads one input: a public one if `is_public` is 1, a private one if it is
/// 0.
///
/// Fails with `InputExhausted` if the queue is empty, and with
/// `PreconditionViolation` if `is_public` is neither 0 nor 1 or if the inputs
/// have not been set up. Nothing changes then.
pub fn wasm_input(state: &mut HostState, is_public: u32) -> (value: Result<u64, HostError>)
    ensures
        match old(state)@.context {
            Some(run) => if is_public <= 1 {
                &&& value == run.input(is_public as i32).0
                &&& final(state)@ == old(state)@.with_run(run.input(is_public as i32).1)
            } else {
                &&& value == Err::<u64, HostError>(HostError::PreconditionViolation)
                &&& final(state)@ == old(state)@
            },
            None => {
                &&& value == Err::<u64, HostError>(HostError::PreconditionViolation)
                &&& final(state)@ == old(state)@
            },
        },
        final(state)@.wf(),
{
    proof {
        use_type_invariant(&state.cache);
        use_type_invariant(&state.merkle);
    }
    if is_public > 1 {
        return Err(HostError::PreconditionViolation);
    }
    match &mut state.context {
        Some(context) => context.wasm_input(is_public as i32),
        None => Err(HostError::PreconditionViolation),
    }
}

/// Appends `v` to the output.
///
/// Fails with `PreconditionViolation` if the inputs have not been set up.
pub fn wasm_output(state: &mut HostState, v: u64) -> (done: Result<(), HostError>)
    ensures
        match old(state)@.context {
            Some(run) => {
                &&& done is Ok
                &&& final(state)@ == old(state)@.with_run(run.written(v))
            },
            None => {
                &&& done == Err::<(), HostError>(HostError::PreconditionViolation)
                &&& final(state)@ == old(state)@
            },
        },
        final(state)@.wf(),
{
    proof {
        use_type_invariant(&state.cache);
        use_type_invariant(&state.merkle);
    }
    match &mut state.context {
        Some(context) => {
            context.wasm_output(v);
            Ok(())
        },
        None => Err(HostError::PreconditionViolation),
    }
}

/// Chooses the mode of the record store: see [`CacheContext::set_mode`].
pub fn cache_set_mode(state: &mut HostState, mode: u64)
    ensures
        final(state)@ == (HostView { cache: old(state)@.cache.mode_set(mode), ..old(state)@ }),
        final(state)@.wf(),
{
    proof {
        use_type_invariant(&state.cache);
        use_type_invariant(&state.merkle);
    }
    state.cache.set_mode(mode);
}

/// Takes one word of a record key: see [`CacheContext::set_data_hash`].
pub fn cache_set_hash(state: &mut HostState, arg: u64) -> (request: Option<RecordRequest>)
    ensures
        request_view(request) == old(state)@.cache.key_fed(arg).0,
        final(state)@ == (HostView { cache: old(state)@.cache.key_fed(arg).1, ..old(state)@ }),
        final(state)@.wf(),
{
    proof {
        use_type_invariant(&state.cache);
        use_type_invariant(&state.merkle);
    }
    state.cache.set_data_hash(arg)
}

/// Adds one word to the record to store: see [`CacheContext::store_data`].
pub fn cache_store_data(state: &mut HostState, data: u64)
    ensures
        final(state)@ == (HostView { cache: old(state)@.cache.stored(data), ..old(state)@ }),
        final(state)@.wf(),
{
    proof {
        use_type_invariant(&state.cache);
        use_type_invariant(&state.merkle);
    }
    state.cache.store_data(data);
}

/// Reads the fetched record: see [`CacheContext::fetch_data`].
pub fn cache_fetch_data(state: &mut HostState) -> (word: Result<u64, HostError>)
    ensures
        word == old(state)@.cache.fetched().0,
        final(state)@ == (HostView { cache: old(state)@.cache.fetched().1, ..old(state)@ }),
        final(state)@.wf(),
{
    proof {
        use_type_invariant(&state.cache);
        use_type_invariant(&state.merkle);
    }
    state.cache.fetch_data()
}

/// Takes one word of a root: see [`MerkleContext::merkle_setroot`].
pub fn merkle_setroot(state: &mut HostState, arg: u64)
    ensures
        final(state)@ == (HostView { merkle: old(state)@.merkle.root_fed(arg), ..old(state)@ }),
        final(state)@.wf(),
{
    proof {
        use_type_invariant(&state.cache);
        use_type_invariant(&state.merkle);
    }
    state.merkle.merkle_setroot(arg);
}

/// Hands out one word of the root: see [`MerkleContext::merkle_getroot`].
pub fn merkle_getroot(state: &mut HostState) -> (word: u64)
    ensures
        word == old(state)@.merkle.root_word(),
        final(state)@ == (HostView { merkle: old(state)@.merkle.root_read(), ..old(state)@ }),
        final(state)@.wf(),
{
    proof {
        use_type_invariant(&state.cache);
        use_type_invariant(&state.merkle);
    }
    state.merkle.merkle_getroot()
}

/// Selects a leaf: see [`MerkleContext::merkle_address`].
pub fn merkle_address(state: &mut HostState, arg: u64)
    ensures
        final(state)@ == (HostView { merkle: old(state)@.merkle.address_fed(arg), ..old(state)@ }),
        final(state)@.wf(),
{
    proof {
        use_type_invariant(&state.cache);
        use_type_invariant(&state.merkle);
    }
    state.merkle.merkle_address(arg);
}

/// Takes one word of a leaf to write: see [`MerkleContext::merkle_set`].
pub fn merkle_set(state: &mut HostState, arg: u64) -> (request: Result<
    Option<LeafUpdate>,
    HostError,
>)
    ensures
        update_view(request) == old(state)@.merkle.leaf_fed(arg).0,
        final(state)@ == (HostView { merkle: old(state)@.merkle.leaf_fed(arg).1, ..old(state)@ }),
        final(state)@.wf(),
{
    proof {
        use_type_invariant(&state.cache);
        use_type_invariant(&state.merkle);
    }
    state.merkle.merkle_set(arg)
}

/// Reads one word of the selected leaf: see [`MerkleContext::merkle_get`].
pub fn merkle_get(state: &mut HostState) -> (read: Result<LeafRead, HostError>)
    ensures
        read_view(read) == old(state)@.merkle.leaf_read().0,
        final(state)@ == (HostView { merkle: old(state)@.merkle.leaf_read().1, ..old(state)@ }),
        final(state)@.wf(),
{
    proof {
        use_type_invariant(&state.cache);
        use_type_invariant(&state.merkle);
    }
    state.merkle.merkle_get()
}

/// Ends the run unless `cond` holds: fails with `AssertionFailed` if `cond`
/// is 0.
pub fn require(cond: i32) -> (held: Result<(), HostError>)
    ensures
        held == (if cond == 0 {
            Err::<(), HostError>(HostError::AssertionFailed)
        } else {
            Ok::<(), HostError>(())
        }),
{
    if cond == 0 {
        Err(HostError::AssertionFailed)
    } else {
        Ok(())
    }
}

/// Ends the run unless `cond` holds: fails with `AssertionFailed` if `cond`
/// is 0.
pub fn assert_true(cond: i32) -> (held: Result<(), HostError>)
    ensures
        held == (if cond == 0 {
            Err::<(), HostError>(HostError::AssertionFailed)
        } else {
            Ok::<(), HostError>(())
        }),
{
    require(cond)
}

/// The size of the trace that the run has produced: none is kept here.
pub fn wasm_trace_size() -> (size: u64)
    ensures
        size == 0,
{
    0
}

} // verus!
