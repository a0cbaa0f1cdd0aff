use karma_calculator::{
    clone_scores, clone_share, CipherSubmission, DecryptionShareSubmission, DecryptionSharesMap,
    RegistrationOut, User,
};

#[test]
fn submissions_carry_their_parts() {
    let s = CipherSubmission::new(2, 7u8, 9u8);
    assert_eq!(s.user_id, 2);
    assert_eq!(s.cipher_text, 7);
    assert_eq!(s.sks, 9);

    let d = DecryptionShareSubmission::new(1, vec![vec![4; 8], vec![5; 8]]);
    assert_eq!(d.user_id, 1);
    assert_eq!(d.decryption_shares, vec![vec![4; 8], vec![5; 8]]);

    let r = RegistrationOut { name: "Barry".to_string(), user_id: 0 };
    assert_eq!(r.name, "Barry");
    assert_eq!(r.user_id, 0);
}

#[test]
fn share_map_cells_are_independent() {
    let mut m = DecryptionSharesMap::new();
    assert!(m.get(0, 0).is_none());
    m.insert(3, 1, vec![31; 8]);
    m.insert(1, 3, vec![13; 8]);
    // (3, 1) and (1, 3) are distinct cells.
    assert_eq!(m.get(3, 1).unwrap(), &vec![31; 8]);
    assert_eq!(m.get(1, 3).unwrap(), &vec![13; 8]);
    assert!(m.get(3, 3).is_none());
    // Re-writing a cell replaces its share.
    m.insert(3, 1, vec![99; 8]);
    assert_eq!(m.get(3, 1).unwrap(), &vec![99; 8]);
}

#[test]
fn copies_preserve_contents() {
    let scores = vec![1u8, 2, 3];
    assert_eq!(clone_scores(&scores), scores);
    let share = vec![5u64, 6, 7];
    assert_eq!(clone_share(&share), share);
    assert_eq!(clone_scores(&Vec::new()), Vec::<u8>::new());
}

#[test]
fn user_steps_accumulate_state() {
    let mut u = User::new("Barry");
    assert_eq!(u.name, "Barry");
    assert!(u.seed.is_none());
    assert!(u.ck.is_none());
    u.update_name("Justin");
    assert_eq!(u.name, "Justin");
    u.assign_seed([9u8; 32]);
    assert_eq!(u.seed, Some([9u8; 32]));
    u.set_id(1);
    assert_eq!(u.id, Some(1));
    u.set_total_users(2);
    assert_eq!(u.total_users, Some(2));
    u.assign_scores(&vec![4, 5]);
    assert_eq!(u.scores, Some(vec![4, 5]));
}

#[test]
fn share_rows_come_back_in_user_order() {
    let mut u = User::new("Barry");
    u.set_total_users(2);
    u.decryption_shares.insert(0, 0, vec![1; 8]);
    u.decryption_shares.insert(0, 1, vec![2; 8]);
    u.decryption_shares.insert(1, 0, vec![3; 8]);
    u.decryption_shares.insert(1, 1, vec![4; 8]);
    assert_eq!(u.share_row(0), vec![vec![1; 8], vec![2; 8]]);
    assert_eq!(u.share_row(1), vec![vec![3; 8], vec![4; 8]]);
}

#[test]
fn my_shares_come_back_in_output_order() {
    let mut u = User::new("Brian");
    u.set_id(1);
    u.set_total_users(2);
    // Shares this user generated for outputs 0 and 1, plus one fetched from
    // the other participant, which must not leak into the result.
    u.decryption_shares.insert(0, 1, vec![10; 8]);
    u.decryption_shares.insert(1, 1, vec![11; 8]);
    u.decryption_shares.insert(0, 0, vec![90; 8]);
    let mine = u.get_my_shares();
    assert_eq!(mine, vec![vec![10; 8], vec![11; 8]]);
}
