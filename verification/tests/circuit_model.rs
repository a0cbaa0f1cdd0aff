use karma_calculator::{evaluate_circuit, evaluate_output, net_balances};

#[test]
fn karma_ledger_three_users() {
    // Rows: what participant i gave to each of [0, 1, 2].
    let scores = vec![vec![0u8, 2, 4], vec![1, 0, 1], vec![1, 1, 0]];
    // participant 0: (0 + 1 + 1) - (0 + 2 + 4) = -4, i.e. 252 mod 256
    // participant 1: (2 + 0 + 1) - (1 + 0 + 1) = 1
    // participant 2: (4 + 1 + 0) - (1 + 1 + 0) = 3
    assert_eq!(net_balances(&scores), vec![252, 1, 3]);
}

#[test]
fn single_user_nets_to_zero() {
    // With one participant, what it gives to itself is also what it
    // receives.
    let scores = vec![vec![5u8]];
    assert_eq!(net_balances(&scores), vec![0]);
}

#[test]
fn empty_ledger() {
    let scores: Vec<Vec<u8>> = vec![];
    assert_eq!(net_balances(&scores), Vec::<u8>::new());
}

#[test]
fn two_user_wraparound() {
    // participant 0 receives 1, gives 0 + 200 = 200: 1 - 200 = -199 = 57.
    // participant 1 receives 200, gives 1 + 0 = 1: 200 - 1 = 199.
    let scores = vec![vec![0u8, 200], vec![1, 0]];
    assert_eq!(net_balances(&scores), vec![57, 199]);
}

#[test]
fn evaluation_pattern_matches_plain_model() {
    // Run the homomorphic orchestration with plaintext stand-ins for the
    // FHE primitives: a "batch" is the owner's score row, re-keying is the
    // identity, extraction reads one slot, and the ring operations are
    // 8-bit wrapping arithmetic. The result must be exactly the plain net
    // balances, which shows the evaluator wires indices the same way.
    let scores = vec![vec![0u8, 2, 4], vec![1, 0, 1], vec![1, 1, 0]];
    let outs = evaluate_circuit(
        &scores,
        |row: &Vec<u8>, _owner: usize| row.clone(),
        |row: &Vec<u8>, i: usize| row[i],
        |a: &u8, b: &u8| a.wrapping_add(*b),
        |a: &u8, b: &u8| a.wrapping_sub(*b),
    );
    assert_eq!(outs, net_balances(&scores));
    assert_eq!(outs, vec![252, 1, 3]);
}

#[test]
fn per_participant_evaluation_matches_plain_model() {
    // The per-participant evaluation over already re-keyed batches, again
    // with plaintext stand-ins, one participant at a time.
    let switched = vec![vec![0u8, 2, 4], vec![1, 0, 1], vec![1, 1, 0]];
    let expected = net_balances(&switched);
    for i in 0..switched.len() {
        let out = evaluate_output(
            &switched,
            i,
            |row: &Vec<u8>, k: usize| row[k],
            |a: &u8, b: &u8| a.wrapping_add(*b),
            |a: &u8, b: &u8| a.wrapping_sub(*b),
        );
        assert_eq!(out, expected[i]);
    }
}
