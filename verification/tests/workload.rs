use rwlock_bench::workload::{
    lock_indexes, thread_roles, thread_seeds, AccessPattern, ConfigurationError, Options,
    ThreadRole, ARGUMENT_COUNT, FOLD_SEED, MASTER_SEED,
};

fn options(n_readers: u32, n_reads: u32, n_writers: u32, n_writes: u32, n_locks: u32) -> Options {
    Options { n_readers, n_reads, n_writers, n_writes, n_locks, n_rounds: 1 }
}

fn drain(pattern: &mut AccessPattern) -> Vec<usize> {
    let mut indexes = Vec::new();
    while let Some(index) = pattern.next() {
        indexes.push(index);
    }
    indexes
}

#[test]
fn the_two_constants() {
    assert_eq!(MASTER_SEED, 0x6F4A955E);
    assert_eq!(FOLD_SEED, 0x9BA2BF27);
    assert_eq!(ARGUMENT_COUNT, 6);
}

#[test]
fn options_from_six_arguments() {
    let args = vec![Some(4), Some(1000), Some(2), Some(500), Some(8), Some(5)];
    assert_eq!(
        Options::from_args(&args),
        Ok(Options {
            n_readers: 4,
            n_reads: 1000,
            n_writers: 2,
            n_writes: 500,
            n_locks: 8,
            n_rounds: 5,
        })
    );
}

#[test]
fn arguments_after_the_sixth_are_not_looked_at() {
    let args = vec![Some(0), Some(1), Some(2), Some(3), Some(4), Some(u32::MAX), None, Some(7)];
    assert_eq!(
        Options::from_args(&args),
        Ok(Options {
            n_readers: 0,
            n_reads: 1,
            n_writers: 2,
            n_writes: 3,
            n_locks: 4,
            n_rounds: u32::MAX,
        })
    );
}

#[test]
fn a_missing_argument_is_reported_with_its_position() {
    assert_eq!(
        Options::from_args(&vec![]),
        Err(ConfigurationError::MissingArgument { position: 0 })
    );
    assert_eq!(
        Options::from_args(&vec![Some(1), Some(2), Some(3), Some(4), Some(5)]),
        Err(ConfigurationError::MissingArgument { position: 5 })
    );
}

#[test]
fn an_argument_that_is_no_number_is_reported_with_its_position() {
    assert_eq!(
        Options::from_args(&vec![Some(1), Some(2), None, Some(4), Some(5), Some(6)]),
        Err(ConfigurationError::InvalidArgument { position: 2 })
    );
    assert_eq!(
        Options::from_args(&vec![Some(1), Some(2), Some(3), Some(4), Some(5), None]),
        Err(ConfigurationError::InvalidArgument { position: 5 })
    );
}

#[test]
fn the_first_faulty_argument_decides() {
    assert_eq!(
        Options::from_args(&vec![Some(1), None, Some(3)]),
        Err(ConfigurationError::InvalidArgument { position: 1 })
    );
    assert_eq!(
        Options::from_args(&vec![Some(1), Some(2), Some(3), None, None]),
        Err(ConfigurationError::InvalidArgument { position: 3 })
    );
    assert_eq!(
        Options::from_args(&vec![None]),
        Err(ConfigurationError::InvalidArgument { position: 0 })
    );
}

#[test]
fn thread_seeds_fold_the_master_stream() {
    assert_eq!(
        thread_seeds(MASTER_SEED, FOLD_SEED, 4),
        vec![443187529, 1557696933, 3448067198, 3635789910]
    );
    assert_eq!(thread_seeds(1, 0, 3), vec![270369, 67905056, 2579533541]);
}

#[test]
fn no_threads_no_seeds() {
    assert_eq!(thread_seeds(MASTER_SEED, FOLD_SEED, 0), Vec::<u32>::new());
}

#[test]
fn fewer_seeds_are_a_prefix_of_more() {
    let many = thread_seeds(MASTER_SEED, FOLD_SEED, 64);
    for count in [0u32, 1, 2, 31, 64] {
        assert_eq!(thread_seeds(MASTER_SEED, FOLD_SEED, count), many[..count as usize].to_vec());
    }
}

#[test]
fn roles_are_readers_then_writers() {
    let roles = thread_roles(&options(4, 1000, 2, 500, 8));
    assert_eq!(
        roles,
        vec![
            ThreadRole::Reader { seed: 443187529 },
            ThreadRole::Reader { seed: 1557696933 },
            ThreadRole::Reader { seed: 3448067198 },
            ThreadRole::Reader { seed: 3635789910 },
            ThreadRole::Writer { seed: 443187529 },
            ThreadRole::Writer { seed: 1557696933 },
        ]
    );
}

#[test]
fn reader_and_writer_at_one_position_share_a_seed() {
    let roles = thread_roles(&options(3, 1, 3, 1, 1));
    assert_eq!(roles.len(), 6);
    for position in 0..3 {
        match (roles[position], roles[position + 3]) {
            (ThreadRole::Reader { seed: reader }, ThreadRole::Writer { seed: writer }) => {
                assert_eq!(reader, writer)
            }
            other => panic!("wrong roles: {:?}", other),
        }
    }
}

#[test]
fn roles_without_threads() {
    assert_eq!(thread_roles(&options(0, 10, 0, 10, 4)), Vec::<ThreadRole>::new());
    assert_eq!(
        thread_roles(&options(0, 0, 1, 1, 1)),
        vec![ThreadRole::Writer { seed: 443187529 }]
    );
}

#[test]
fn indexes_are_stream_values_modulo_the_pool_size() {
    assert_eq!(drain(&mut lock_indexes(9, 8, 5)), vec![1, 1, 4, 5, 5]);
    assert_eq!(drain(&mut lock_indexes(9, 3, 5)), vec![0, 1, 0, 1, 0]);
    assert_eq!(drain(&mut lock_indexes(443187529, 8, 6)), vec![0, 7, 3, 6, 2, 1]);
    assert_eq!(drain(&mut lock_indexes(1557696933, 8, 6)), vec![3, 7, 1, 4, 4, 3]);
}

#[test]
fn one_lock_takes_every_access() {
    assert_eq!(drain(&mut lock_indexes(9, 1, 5)), vec![0, 0, 0, 0, 0]);
}

#[test]
fn a_pattern_ends_after_its_count() {
    let mut pattern = lock_indexes(9, 8, 2);
    assert_eq!(pattern.next(), Some(1));
    assert_eq!(pattern.next(), Some(1));
    assert_eq!(pattern.next(), None);
    assert_eq!(pattern.next(), None);
}

#[test]
fn an_empty_pattern_needs_no_lock() {
    let mut pattern = lock_indexes(9, 0, 0);
    assert_eq!(pattern.next(), None);
    let mut pattern = lock_indexes(9, 8, 0);
    assert_eq!(pattern.next(), None);
}

#[test]
fn every_index_is_inside_the_pool() {
    for n_locks in [1u32, 2, 3, 8, 1000] {
        for index in drain(&mut lock_indexes(443187529, n_locks, 2000)) {
            assert!(index < n_locks as usize);
        }
    }
}
