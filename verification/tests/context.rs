use host::context::context::Context;
use host::error::HostError;

#[test]
fn new_context_has_the_inputs_and_no_output() {
    let mut context = Context::new(vec![1, 2], vec![3]);
    assert_eq!(context.public_inputs, vec![1, 2]);
    assert_eq!(context.private_inputs, vec![3]);
    assert_eq!(context.dump_output(), Vec::<u64>::new());
}

#[test]
fn public_inputs_come_out_in_order() {
    let mut context = Context::new(vec![10, 20, 30], vec![7]);
    assert_eq!(context.pop_public(), Ok(10));
    assert_eq!(context.pop_public(), Ok(20));
    assert_eq!(context.pop_public(), Ok(30));
    assert_eq!(context.private_inputs, vec![7]);
}

#[test]
fn private_inputs_come_out_in_order() {
    let mut context = Context::new(vec![7], vec![u64::MAX, 0, 5]);
    assert_eq!(context.pop_private(), Ok(u64::MAX));
    assert_eq!(context.pop_private(), Ok(0));
    assert_eq!(context.pop_private(), Ok(5));
    assert_eq!(context.public_inputs, vec![7]);
}

#[test]
fn reading_past_the_last_public_input_fails() {
    let mut context = Context::new(vec![1], vec![2]);
    assert_eq!(context.pop_public(), Ok(1));
    assert_eq!(context.pop_public(), Err(HostError::InputExhausted));
    assert_eq!(context.pop_public(), Err(HostError::InputExhausted));
    assert_eq!(context.pop_private(), Ok(2));
}

#[test]
fn reading_past_the_last_private_input_fails() {
    let mut context = Context::new(vec![1], Vec::new());
    assert_eq!(context.pop_private(), Err(HostError::InputExhausted));
    assert_eq!(context.pop_public(), Ok(1));
}

#[test]
fn input_selector_picks_the_queue() {
    let mut context = Context::new(vec![1, 2], vec![3, 4]);
    assert_eq!(context.wasm_input(1), Ok(1));
    assert_eq!(context.wasm_input(0), Ok(3));
    assert_eq!(context.wasm_input(0), Ok(4));
    assert_eq!(context.wasm_input(1), Ok(2));
    assert_eq!(context.wasm_input(1), Err(HostError::InputExhausted));
    assert_eq!(context.wasm_input(0), Err(HostError::InputExhausted));
}

#[test]
fn input_selector_other_than_zero_or_one_is_refused() {
    let mut context = Context::new(vec![1], vec![2]);
    assert_eq!(context.wasm_input(2), Err(HostError::PreconditionViolation));
    assert_eq!(context.wasm_input(-1), Err(HostError::PreconditionViolation));
    assert_eq!(context.public_inputs, vec![1]);
    assert_eq!(context.private_inputs, vec![2]);
}

#[test]
fn reading_public_input_leaves_no_trace_in_the_output() {
    let mut context = Context::new(vec![42], Vec::new());
    assert_eq!(context.wasm_input(1), Ok(42));
    assert_eq!(context.dump_output(), Vec::<u64>::new());
}

#[test]
fn output_is_dumped_in_write_order() {
    let mut context = Context::new(Vec::new(), Vec::new());
    for v in [5u64, 3, 9, 3] {
        context.wasm_output(v);
    }
    assert_eq!(context.dump_output(), vec![5, 3, 9, 3]);
}

#[test]
fn dump_can_be_repeated() {
    let mut context = Context::new(vec![1], vec![2]);
    context.wasm_output(8);
    context.wasm_output(9);
    let first = context.dump_output();
    let second = context.dump_output();
    assert_eq!(first, vec![8, 9]);
    assert_eq!(second, first);
    context.wasm_output(10);
    assert_eq!(context.dump_output(), vec![8, 9, 10]);
    assert_eq!(context.public_inputs, vec![1]);
    assert_eq!(context.private_inputs, vec![2]);
}
