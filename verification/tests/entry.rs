use host::context::datacache::RecordRequest;
use host::context::merkle::LeafRead;
use host::error::HostError;
use host::oracle::{LeafQuery, LeafUpdate, RecordQuery, RecordUpdate};
use host::{
    assert_true, cache_fetch_data, cache_set_hash, cache_set_mode, cache_store_data, merkle_address,
    merkle_get, merkle_getroot, merkle_set, merkle_setroot, require, wasm_dump_output, wasm_input,
    wasm_output, wasm_setup_inputs, wasm_trace_size, HostState,
};

#[test]
fn inputs_must_be_set_up_before_they_are_read() {
    let mut state = HostState::new();
    assert_eq!(wasm_input(&mut state, 1), Err(HostError::PreconditionViolation));
    assert_eq!(wasm_input(&mut state, 0), Err(HostError::PreconditionViolation));
    assert_eq!(wasm_output(&mut state, 1), Err(HostError::PreconditionViolation));
    assert_eq!(wasm_dump_output(&mut state), Err(HostError::PreconditionViolation));
}

#[test]
fn run_reads_inputs_and_writes_output() {
    let mut state = HostState::new();
    wasm_setup_inputs(&mut state, vec![1, 2], vec![30]);
    assert_eq!(wasm_input(&mut state, 1), Ok(1));
    assert_eq!(wasm_input(&mut state, 0), Ok(30));
    assert_eq!(wasm_input(&mut state, 1), Ok(2));
    assert_eq!(wasm_input(&mut state, 1), Err(HostError::InputExhausted));
    assert_eq!(wasm_input(&mut state, 0), Err(HostError::InputExhausted));
    assert_eq!(wasm_output(&mut state, 33), Ok(()));
    assert_eq!(wasm_output(&mut state, 44), Ok(()));
    assert_eq!(wasm_dump_output(&mut state), Ok(vec![33, 44]));
    assert_eq!(wasm_dump_output(&mut state), Ok(vec![33, 44]));
}

#[test]
fn input_flag_above_one_is_refused() {
    let mut state = HostState::new();
    wasm_setup_inputs(&mut state, vec![1], vec![2]);
    assert_eq!(wasm_input(&mut state, 2), Err(HostError::PreconditionViolation));
    assert_eq!(wasm_input(&mut state, u32::MAX), Err(HostError::PreconditionViolation));
    assert_eq!(wasm_input(&mut state, 1), Ok(1));
    assert_eq!(wasm_input(&mut state, 0), Ok(2));
}

#[test]
fn only_the_first_setup_counts() {
    let mut state = HostState::new();
    wasm_setup_inputs(&mut state, vec![1], vec![2]);
    wasm_output(&mut state, 5).unwrap();
    wasm_setup_inputs(&mut state, vec![9, 9], vec![9]);
    assert_eq!(wasm_input(&mut state, 1), Ok(1));
    assert_eq!(wasm_input(&mut state, 1), Err(HostError::InputExhausted));
    assert_eq!(wasm_dump_output(&mut state), Ok(vec![5]));
}

#[test]
fn false_assertion_fails() {
    assert_eq!(require(0), Err(HostError::AssertionFailed));
    assert_eq!(assert_true(0), Err(HostError::AssertionFailed));
}

#[test]
fn true_assertion_passes() {
    for cond in [1, 2, -1, i32::MAX, i32::MIN] {
        assert_eq!(require(cond), Ok(()));
        assert_eq!(assert_true(cond), Ok(()));
    }
}

#[test]
fn no_trace_is_kept() {
    assert_eq!(wasm_trace_size(), 0);
}

#[test]
fn cache_and_tree_work_before_the_inputs_are_set_up() {
    let mut state = HostState::new();
    cache_set_mode(&mut state, 1);
    cache_store_data(&mut state, 8);
    merkle_address(&mut state, 1);
    assert_eq!(merkle_getroot(&mut state), 0);
    assert!(state.context.is_none());
}

#[test]
fn cache_entry_points_store_and_fetch() {
    let mut state = HostState::new();
    cache_set_mode(&mut state, 1);
    cache_store_data(&mut state, 100);
    cache_store_data(&mut state, 200);
    assert_eq!(cache_set_hash(&mut state, 1), None);
    assert_eq!(cache_set_hash(&mut state, 2), None);
    assert_eq!(cache_set_hash(&mut state, 3), None);
    let mut key = [0u8; 32];
    key[0] = 1;
    key[8] = 2;
    key[16] = 3;
    key[24] = 4;
    assert_eq!(
        cache_set_hash(&mut state, 4),
        Some(RecordRequest::Store(RecordUpdate { key, data: vec![100, 200] }))
    );

    cache_set_mode(&mut state, 0);
    cache_set_hash(&mut state, 1);
    cache_set_hash(&mut state, 2);
    cache_set_hash(&mut state, 3);
    assert_eq!(
        cache_set_hash(&mut state, 4),
        Some(RecordRequest::Fetch(RecordQuery { key }))
    );
    state.cache.accept_record(vec![100, 200]);
    assert_eq!(cache_fetch_data(&mut state), Ok(2));
    assert_eq!(cache_fetch_data(&mut state), Ok(100));
    assert_eq!(cache_fetch_data(&mut state), Ok(200));
    assert_eq!(cache_fetch_data(&mut state), Err(HostError::PreconditionViolation));
}

#[test]
fn merkle_entry_points_write_and_read() {
    let mut state = HostState::new();
    assert_eq!(merkle_set(&mut state, 1), Err(HostError::PreconditionViolation));
    assert_eq!(merkle_get(&mut state), Err(HostError::PreconditionViolation));

    merkle_address(&mut state, 5);
    assert_eq!(merkle_set(&mut state, 1), Ok(None));
    assert_eq!(merkle_set(&mut state, 0), Ok(None));
    assert_eq!(merkle_set(&mut state, 0), Ok(None));
    let mut leaf = [0u8; 32];
    leaf[0] = 1;
    assert_eq!(
        merkle_set(&mut state, 0),
        Ok(Some(LeafUpdate { root: [0u8; 32], index: 4_294_967_300, leaf }))
    );
    let new_root = [0xabu8; 32];
    state.merkle.accept_root(new_root);
    assert_eq!(merkle_getroot(&mut state), 0xabab_abab_abab_abab);

    merkle_address(&mut state, 5);
    assert_eq!(
        merkle_get(&mut state),
        Ok(LeafRead::Query(LeafQuery { root: new_root, index: 4_294_967_300 }))
    );
    assert_eq!(state.merkle.accept_leaf(leaf), Ok(1));
    assert_eq!(merkle_get(&mut state), Ok(LeafRead::Word(0)));
    assert_eq!(merkle_get(&mut state), Ok(LeafRead::Word(0)));
    assert_eq!(merkle_get(&mut state), Ok(LeafRead::Word(0)));
    assert_eq!(merkle_get(&mut state), Err(HostError::PreconditionViolation));
}

#[test]
fn merkle_entry_points_set_and_read_the_root() {
    let mut state = HostState::new();
    for word in [11u64, 22, 33, 44] {
        merkle_setroot(&mut state, word);
    }
    assert_eq!(merkle_getroot(&mut state), 11);
    assert_eq!(merkle_getroot(&mut state), 22);
    assert_eq!(merkle_getroot(&mut state), 33);
    assert_eq!(merkle_getroot(&mut state), 44);
    assert_eq!(merkle_getroot(&mut state), 11);
}
