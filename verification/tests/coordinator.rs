use karma_calculator::{Error, RunStep, ServerStatus, ServerStorage, UserStatus, UserStorage};

fn fresh(n: usize) -> ServerStorage<u8, u8, u8> {
    let mut s: ServerStorage<u8, u8, u8> = ServerStorage::new([7u8; 32]);
    for i in 0..n {
        let name = format!("user{}", i);
        let user = s.register(&name).unwrap();
        assert_eq!(user.id, i);
    }
    s
}

#[test]
fn registration_assigns_dense_ids() {
    let mut s: ServerStorage<u8, u8, u8> = ServerStorage::new([0u8; 32]);
    let a = s.register("Barry").unwrap();
    let b = s.register("Justin").unwrap();
    let c = s.register("Brian").unwrap();
    assert_eq!(a.id, 0);
    assert_eq!(b.id, 1);
    assert_eq!(c.id, 2);
    assert_eq!(a.name, "Barry");
    assert!(matches!(a.status, UserStatus::IDAcquired));
    let d = s.get_dashboard();
    assert_eq!(d.get_names(), vec!["Barry", "Justin", "Brian"]);
}

#[test]
fn slots_expose_cipher_material_by_state() {
    let slot: UserStorage<u8, u8> = UserStorage::CipherSks(3, 4);
    assert_eq!(slot.get_cipher_sks(), Some((&3, &4)));
    let empty: UserStorage<u8, u8> = UserStorage::Empty;
    assert_eq!(empty.get_cipher_sks(), None);
    let shares: UserStorage<u8, u8> = UserStorage::DecryptionShare(None);
    assert_eq!(shares.get_cipher_sks(), None);
}

#[test]
fn submission_advances_user_status() {
    let mut s = fresh(2);
    s.conclude_registration().unwrap();
    s.submit_cipher(1, 5, 6).unwrap();
    let d = s.get_dashboard();
    assert!(matches!(d.users[0].status, UserStatus::IDAcquired));
    assert!(matches!(d.users[1].status, UserStatus::CipherSubmitted));
}

#[test]
fn get_seed_returns_setup_seed() {
    let s: ServerStorage<u8, u8, u8> = ServerStorage::new([42u8; 32]);
    assert_eq!(s.get_seed(), [42u8; 32]);
}

#[test]
fn register_after_conclude_fails() {
    let mut s = fresh(2);
    let d = s.conclude_registration().unwrap();
    assert!(d.is_concluded());
    let err = s.register("late").unwrap_err();
    assert_eq!(
        err,
        Error::WrongPhase {
            expect: ServerStatus::ReadyForJoining,
            got: ServerStatus::ReadyForInputs,
        }
    );
}

#[test]
fn conclude_twice_fails() {
    let mut s = fresh(1);
    s.conclude_registration().unwrap();
    let err = s.conclude_registration().unwrap_err();
    assert_eq!(
        err,
        Error::WrongPhase {
            expect: ServerStatus::ReadyForJoining,
            got: ServerStatus::ReadyForInputs,
        }
    );
}

#[test]
fn submit_before_conclude_fails() {
    let mut s = fresh(1);
    let err = s.submit_cipher(0, 1, 1).unwrap_err();
    assert_eq!(
        err,
        Error::WrongPhase {
            expect: ServerStatus::ReadyForInputs,
            got: ServerStatus::ReadyForJoining,
        }
    );
}

#[test]
fn submit_unknown_user_fails() {
    let mut s = fresh(2);
    s.conclude_registration().unwrap();
    let err = s.submit_cipher(2, 1, 1).unwrap_err();
    assert_eq!(err, Error::UnknownUser { user_id: 2 });
}

#[test]
fn auto_transition_exactly_on_last_submission() {
    // Submission order is a permutation of the ids; the phase flips only
    // when the last missing participant submits.
    for order in [[0usize, 1, 2], [2, 0, 1], [1, 2, 0]] {
        let mut s = fresh(3);
        s.conclude_registration().unwrap();
        for (k, &uid) in order.iter().enumerate() {
            assert!(!matches!(s.get_dashboard().status, ServerStatus::ReadyForRunning));
            let got = s.submit_cipher(uid, uid as u8, uid as u8).unwrap();
            assert_eq!(got, uid);
            let flipped = matches!(s.get_dashboard().status, ServerStatus::ReadyForRunning);
            assert_eq!(flipped, k == 2);
        }
    }
}

#[test]
fn partial_submissions_do_not_transition() {
    let mut s = fresh(3);
    s.conclude_registration().unwrap();
    s.submit_cipher(0, 1, 1).unwrap();
    s.submit_cipher(2, 1, 1).unwrap();
    assert!(matches!(s.get_dashboard().status, ServerStatus::ReadyForInputs));
    let err = s.run(None).unwrap_err();
    assert_eq!(
        err,
        Error::WrongPhase {
            expect: ServerStatus::ReadyForRunning,
            got: ServerStatus::ReadyForInputs,
        }
    );
}

#[test]
fn run_dispatches_snapshot_in_id_order() {
    let mut s = fresh(3);
    s.conclude_registration().unwrap();
    s.submit_cipher(1, 11, 21).unwrap();
    s.submit_cipher(0, 10, 20).unwrap();
    s.submit_cipher(2, 12, 22).unwrap();
    match s.run(None).unwrap() {
        RunStep::Dispatch { key_shares, ciphers } => {
            assert_eq!(ciphers, vec![10, 11, 12]);
            assert_eq!(key_shares, vec![20, 21, 22]);
        }
        _ => panic!("expected a dispatch"),
    }
    assert!(matches!(s.get_dashboard().status, ServerStatus::RunningFhe));
}

#[test]
fn run_is_idempotent_while_running() {
    let mut s = fresh(2);
    s.conclude_registration().unwrap();
    s.submit_cipher(0, 1, 1).unwrap();
    s.submit_cipher(1, 2, 2).unwrap();
    assert!(matches!(s.run(None).unwrap(), RunStep::Dispatch { .. }));
    // Polling repeatedly neither dispatches a second computation nor moves
    // the phase.
    for _ in 0..3 {
        assert!(matches!(s.run(None).unwrap(), RunStep::Running));
        assert!(matches!(s.get_dashboard().status, ServerStatus::RunningFhe));
    }
    assert!(matches!(s.run(Some(vec![5, 6])).unwrap(), RunStep::Completed));
    assert!(matches!(s.run(None).unwrap(), RunStep::Completed));
    assert!(matches!(s.get_dashboard().status, ServerStatus::CompletedFhe));
}

#[test]
fn resubmission_last_write_wins() {
    let mut s = fresh(2);
    s.conclude_registration().unwrap();
    s.submit_cipher(0, 1, 1).unwrap();
    // User 0 resubmits while the inputs are still open; only the second
    // payload reaches the evaluation.
    s.submit_cipher(0, 9, 8).unwrap();
    s.submit_cipher(1, 2, 2).unwrap();
    match s.run(None).unwrap() {
        RunStep::Dispatch { key_shares, ciphers } => {
            assert_eq!(ciphers, vec![9, 2]);
            assert_eq!(key_shares, vec![8, 2]);
        }
        _ => panic!("expected a dispatch"),
    }
}

#[test]
fn get_outputs_only_after_completion() {
    let mut s = fresh(2);
    assert_eq!(s.get_outputs().unwrap_err(), Error::OutputNotReady);
    s.conclude_registration().unwrap();
    assert_eq!(s.get_outputs().unwrap_err(), Error::OutputNotReady);
    s.submit_cipher(0, 1, 1).unwrap();
    s.submit_cipher(1, 2, 2).unwrap();
    assert_eq!(s.get_outputs().unwrap_err(), Error::OutputNotReady);
    s.run(None).unwrap();
    assert_eq!(s.get_outputs().unwrap_err(), Error::OutputNotReady);
    s.run(Some(vec![5, 6])).unwrap();
    let outs = s.get_outputs().unwrap();
    assert_eq!(outs, &vec![5, 6]);
    assert_eq!(outs.len(), 2);
}

#[test]
fn decryption_share_flow() {
    let mut s = fresh(2);
    s.conclude_registration().unwrap();
    // Before the run starts the slots are not share slots yet.
    let err = s.submit_decryption_shares(0, vec![vec![1; 8], vec![2; 8]]).unwrap_err();
    assert_eq!(err, Error::OutputNotReady);
    s.submit_cipher(0, 1, 1).unwrap();
    s.submit_cipher(1, 2, 2).unwrap();
    s.run(None).unwrap();
    // Unknown users are rejected by id.
    let err = s.submit_decryption_shares(5, vec![vec![1; 8], vec![2; 8]]).unwrap_err();
    assert_eq!(err, Error::UnknownUser { user_id: 5 });
    assert_eq!(
        s.get_decryption_share(0, 5).unwrap_err(),
        Error::UnknownUser { user_id: 5 }
    );
    // Before a user submits, its shares are not found.
    assert_eq!(
        s.get_decryption_share(1, 0).unwrap_err(),
        Error::ShareNotFound { output_id: 1, user_id: 0 }
    );
    let uid = s.submit_decryption_shares(0, vec![vec![10; 8], vec![11; 8]]).unwrap();
    assert_eq!(uid, 0);
    assert_eq!(s.get_decryption_share(0, 0).unwrap(), vec![10; 8]);
    assert_eq!(s.get_decryption_share(1, 0).unwrap(), vec![11; 8]);
    assert_eq!(
        s.get_decryption_share(0, 1).unwrap_err(),
        Error::ShareNotFound { output_id: 0, user_id: 1 }
    );
    // Sharing continues within CompletedFhe.
    s.run(Some(vec![5, 6])).unwrap();
    s.submit_decryption_shares(1, vec![vec![20; 8], vec![21; 8]]).unwrap();
    assert_eq!(s.get_decryption_share(1, 1).unwrap(), vec![21; 8]);
    let d = s.get_dashboard();
    assert!(d.is_fhe_complete());
    assert!(matches!(d.users[1].status, UserStatus::DecryptionShareSubmitted));
}
