use host::context::datacache::{CacheContext, RecordRequest, FETCH_MODE, STORE_MODE};
use host::error::HostError;
use host::oracle::{RecordQuery, RecordUpdate};
use std::collections::HashMap;

/// A stand-in for the host's record store.
struct MemoryStore {
    records: HashMap<[u8; 32], Vec<u64>>,
    puts: usize,
    gets: usize,
}

impl MemoryStore {
    fn new() -> Self {
        MemoryStore { records: HashMap::new(), puts: 0, gets: 0 }
    }

    fn update_record(&mut self, update: RecordUpdate) {
        self.puts += 1;
        self.records.insert(update.key, update.data);
    }

    fn get_record(&mut self, query: RecordQuery) -> Vec<u64> {
        self.gets += 1;
        self.records.get(&query.key).cloned().unwrap_or_default()
    }
}

fn words_of(bytes: &[u8; 32]) -> [u64; 4] {
    let mut words = [0u64; 4];
    for (i, chunk) in bytes.chunks(8).enumerate() {
        words[i] = u64::from_le_bytes(chunk.try_into().unwrap());
    }
    words
}

fn send_key(context: &mut CacheContext, store: &mut MemoryStore, key: &[u8; 32]) {
    for word in words_of(key) {
        match context.set_data_hash(word) {
            Some(RecordRequest::Fetch(query)) => {
                let record = store.get_record(query);
                context.accept_record(record);
            }
            Some(RecordRequest::Store(update)) => store.update_record(update),
            None => {}
        }
    }
}

fn store(context: &mut CacheContext, memory: &mut MemoryStore, key: &[u8; 32], record: &[u64]) {
    context.set_mode(STORE_MODE);
    for word in record {
        context.store_data(*word);
    }
    send_key(context, memory, key);
}

fn fetch(context: &mut CacheContext, memory: &mut MemoryStore, key: &[u8; 32]) {
    context.set_mode(FETCH_MODE);
    send_key(context, memory, key);
}

fn sample_key(seed: u8) -> [u8; 32] {
    let mut key = [0u8; 32];
    for (i, byte) in key.iter_mut().enumerate() {
        *byte = seed ^ (i as u8).wrapping_mul(29);
    }
    key
}

#[test]
fn modes_are_zero_and_one() {
    assert_eq!(FETCH_MODE, 0);
    assert_eq!(STORE_MODE, 1);
}

#[test]
fn new_cache_is_in_fetch_mode_and_empty() {
    let context = CacheContext::new();
    assert_eq!(context.mode(), FETCH_MODE);
    assert_eq!(context.len(), 0);
}

#[test]
fn fetched_record_is_read_as_length_then_words_in_stored_order() {
    let mut memory = MemoryStore::new();
    let mut context = CacheContext::new();
    let key = sample_key(1);
    store(&mut context, &mut memory, &key, &[10, 20, 30]);
    fetch(&mut context, &mut memory, &key);
    assert_eq!(context.fetch_data(), Ok(3));
    assert_eq!(context.fetch_data(), Ok(10));
    assert_eq!(context.fetch_data(), Ok(20));
    assert_eq!(context.fetch_data(), Ok(30));
    assert_eq!(context.fetch_data(), Err(HostError::PreconditionViolation));
}

#[test]
fn first_read_turns_the_record_around_and_later_reads_take_from_the_end() {
    let mut context = CacheContext::new();
    context.accept_record(vec![1, 2, 3, 4, 5]);
    assert_eq!(context.len(), 5);
    assert_eq!(context.fetch_data(), Ok(5));
    assert_eq!(context.len(), 5);
    assert_eq!(context.fetch_data(), Ok(1));
    assert_eq!(context.len(), 4);
    assert_eq!(context.fetch_data(), Ok(2));
    assert_eq!(context.fetch_data(), Ok(3));
    assert_eq!(context.fetch_data(), Ok(4));
    assert_eq!(context.fetch_data(), Ok(5));
    assert_eq!(context.len(), 0);
}

#[test]
fn symmetric_record_reads_the_same_from_both_ends() {
    let mut context = CacheContext::new();
    let record = vec![7u64, 8, 9, 8, 7];
    context.accept_record(record.clone());
    assert_eq!(context.fetch_data(), Ok(5));
    for i in 0..record.len() {
        assert_eq!(context.fetch_data(), Ok(record[record.len() - 1 - i]));
    }
}

#[test]
fn record_of_one_word() {
    let mut memory = MemoryStore::new();
    let mut context = CacheContext::new();
    let key = sample_key(2);
    store(&mut context, &mut memory, &key, &[u64::MAX]);
    fetch(&mut context, &mut memory, &key);
    assert_eq!(context.fetch_data(), Ok(1));
    assert_eq!(context.fetch_data(), Ok(u64::MAX));
    assert_eq!(context.fetch_data(), Err(HostError::PreconditionViolation));
}

#[test]
fn empty_store_does_not_reach_the_host() {
    let mut memory = MemoryStore::new();
    let mut context = CacheContext::new();
    let key = [0u8; 32];
    store(&mut context, &mut memory, &key, &[]);
    assert_eq!(memory.puts, 0);
    fetch(&mut context, &mut memory, &key);
    assert_eq!(memory.gets, 1);
    assert_eq!(context.fetch_data(), Ok(0));
    assert_eq!(context.fetch_data(), Err(HostError::PreconditionViolation));
}

#[test]
fn empty_store_leaves_the_record_that_was_there() {
    let mut memory = MemoryStore::new();
    let mut context = CacheContext::new();
    let key = [0u8; 32];
    store(&mut context, &mut memory, &key, &[4, 5]);
    store(&mut context, &mut memory, &key, &[]);
    assert_eq!(memory.puts, 1);
    fetch(&mut context, &mut memory, &key);
    assert_eq!(context.fetch_data(), Ok(2));
    assert_eq!(context.fetch_data(), Ok(4));
    assert_eq!(context.fetch_data(), Ok(5));
}

#[test]
fn key_asks_the_host_with_its_fourth_word_only() {
    let mut context = CacheContext::new();
    let key = sample_key(3);
    let words = words_of(&key);
    context.set_mode(STORE_MODE);
    context.store_data(1);
    context.store_data(2);
    assert_eq!(context.set_data_hash(words[0]), None);
    assert_eq!(context.set_data_hash(words[1]), None);
    assert_eq!(context.set_data_hash(words[2]), None);
    assert_eq!(
        context.set_data_hash(words[3]),
        Some(RecordRequest::Store(RecordUpdate { key, data: vec![1, 2] }))
    );
    assert_eq!(context.set_data_hash(words[0]), None);
}

#[test]
fn fetch_mode_asks_for_the_record_under_the_key() {
    let mut context = CacheContext::new();
    let key = sample_key(4);
    let words = words_of(&key);
    context.set_mode(FETCH_MODE);
    assert_eq!(context.set_data_hash(words[0]), None);
    assert_eq!(context.set_data_hash(words[1]), None);
    assert_eq!(context.set_data_hash(words[2]), None);
    assert_eq!(
        context.set_data_hash(words[3]),
        Some(RecordRequest::Fetch(RecordQuery { key }))
    );
}

#[test]
fn key_words_are_little_endian() {
    let mut context = CacheContext::new();
    context.set_data_hash(0x0807_0605_0403_0201);
    context.set_data_hash(0);
    context.set_data_hash(0);
    let request = context.set_data_hash(0xff00_0000_0000_0000);
    let mut key = [0u8; 32];
    key[..8].copy_from_slice(&[1, 2, 3, 4, 5, 6, 7, 8]);
    key[31] = 0xff;
    assert_eq!(request, Some(RecordRequest::Fetch(RecordQuery { key })));
}

#[test]
fn unknown_mode_asks_nothing() {
    let mut context = CacheContext::new();
    context.set_mode(2);
    assert_eq!(context.mode(), 2);
    context.store_data(1);
    for word in words_of(&sample_key(5)) {
        assert_eq!(context.set_data_hash(word), None);
    }
}

#[test]
fn choosing_a_mode_drops_the_collected_words() {
    let mut context = CacheContext::new();
    context.set_mode(STORE_MODE);
    context.store_data(1);
    context.store_data(2);
    assert_eq!(context.len(), 2);
    context.set_mode(STORE_MODE);
    assert_eq!(context.len(), 0);
    for word in words_of(&sample_key(6)) {
        assert_eq!(context.set_data_hash(word), None);
    }
}

#[test]
fn collected_words_stay_after_they_were_stored() {
    let mut context = CacheContext::new();
    let key = sample_key(7);
    context.set_mode(STORE_MODE);
    context.store_data(3);
    let mut requests = Vec::new();
    for word in words_of(&key) {
        requests.push(context.set_data_hash(word));
    }
    assert_eq!(
        requests[3],
        Some(RecordRequest::Store(RecordUpdate { key, data: vec![3] }))
    );
    assert_eq!(context.len(), 1);
    context.store_data(4);
    let other = sample_key(8);
    let mut last = None;
    for word in words_of(&other) {
        last = context.set_data_hash(word);
    }
    assert_eq!(
        last,
        Some(RecordRequest::Store(RecordUpdate { key: other, data: vec![3, 4] }))
    );
}

#[test]
fn records_under_different_keys_are_kept_apart() {
    let mut memory = MemoryStore::new();
    let mut context = CacheContext::new();
    let one = sample_key(1);
    let two = sample_key(2);
    store(&mut context, &mut memory, &one, &[1, 1]);
    store(&mut context, &mut memory, &two, &[2]);
    fetch(&mut context, &mut memory, &one);
    assert_eq!(context.fetch_data(), Ok(2));
    assert_eq!(context.fetch_data(), Ok(1));
    assert_eq!(context.fetch_data(), Ok(1));
    fetch(&mut context, &mut memory, &two);
    assert_eq!(context.fetch_data(), Ok(1));
    assert_eq!(context.fetch_data(), Ok(2));
}

#[test]
fn new_fetch_starts_with_the_length_again() {
    let mut context = CacheContext::new();
    context.accept_record(vec![5, 6]);
    assert_eq!(context.fetch_data(), Ok(2));
    assert_eq!(context.fetch_data(), Ok(5));
    context.accept_record(vec![9]);
    assert_eq!(context.fetch_data(), Ok(1));
    assert_eq!(context.fetch_data(), Ok(9));
    assert_eq!(context.fetch_data(), Err(HostError::PreconditionViolation));
}

#[test]
fn first_read_of_a_new_cache_gives_length_zero() {
    let mut context = CacheContext::new();
    assert_eq!(context.fetch_data(), Ok(0));
    assert_eq!(context.fetch_data(), Err(HostError::PreconditionViolation));
}
