use crate::UserId;
use vstd::prelude::*;

verus! {

/// The phase the coordinator is in. Transitions are one-directional along
/// `ReadyForJoining -> ReadyForInputs -> ReadyForRunning -> RunningFhe ->
/// CompletedFhe`, except for the explicit rollback to `ReadyForInputs` when a
/// run is triggered while a cipher submission is missing.
#[derive(Clone, Copy, Debug, PartialEq, Eq, Structural)]
pub enum ServerStatus {
    /// Users are allowed to join the computation.
    ReadyForJoining,
    /// The number of users is fixed; ciphertext submissions are accepted.
    ReadyForInputs,
    /// Every user has submitted; the run can be dispatched.
    ReadyForRunning,
    /// The homomorphic evaluation is in flight on the background pool.
    RunningFhe,
    /// Outputs are installed; decryption shares are being exchanged.
    CompletedFhe,
}

/// How far one participant has advanced through the protocol.
#[derive(Clone, Copy, Debug, PartialEq, Eq, Structural)]
pub enum UserStatus {
    IDAcquired,
    CipherSubmitted,
    DecryptionShareSubmitted,
}

/// Mathematical image of a [`RegisteredUser`].
#[verifier::ext_equal]
pub ghost struct UserView {
    pub id: int,
    pub name: Seq<char>,
    pub status: UserStatus,
}

/// One registered participant: a dense id assigned at registration, the
/// submitted name, and the participant's progress through the protocol.
#[derive(Debug)]
pub struct RegisteredUser {
    pub id: UserId,
    pub name: String,
    pub status: UserStatus,
}

impl View for RegisteredUser {
    type V = UserView;

    open spec fn view(&self) -> UserView {
        UserView { id: self.id as int, name: self.name@, status: self.status }
    }
}

impl RegisteredUser {
    pub fn new(id: UserId, name: &str) -> (r: Self)
        ensures
            r@ == (UserView { id: id as int, name: name@, status: UserStatus::IDAcquired }),
    {
        RegisteredUser { id, name: name.to_owned(), status: UserStatus::IDAcquired }
    }

    /// A field-for-field copy; spelled out so its contract relates the copy
    /// to the value it was taken from.
    pub fn duplicate(&self) -> (r: Self)
        ensures
            r@ == self@,
    {
        RegisteredUser { id: self.id, name: self.name.clone(), status: self.status }
    }
}

/// Everything that can go wrong at the protocol surface.
#[derive(Clone, Copy, Debug, PartialEq, Eq, Structural)]
pub enum Error {
    /// The operation is legal only in `expect`, but the coordinator is in `got`.
    WrongPhase { expect: ServerStatus, got: ServerStatus },
    /// The referenced id was never assigned.
    UnknownUser { user_id: UserId },
    /// A run was triggered while this user's cipher submission was missing;
    /// the phase rolls back to `ReadyForInputs` so it can be resubmitted.
    CipherNotFound { user_id: UserId },
    /// The requested artifact is not available before the relevant phase.
    OutputNotReady,
    /// This user has not yet submitted a decryption share for this output.
    ShareNotFound { output_id: usize, user_id: UserId },
}

/// A decryption share for one output word: one entry per bit of the word.
pub type DecryptionShare = Vec<u64>;

/// What `register` answers: the name echoed back with the assigned id.
pub struct RegistrationOut {
    pub name: String,
    pub user_id: UserId,
}

/// A user's single-shot upload: the ciphertext of the score row together
/// with the server key share, tagged with the sender's id.
pub struct CipherSubmission<C, K> {
    pub user_id: UserId,
    pub cipher_text: C,
    pub sks: K,
}

impl<C, K> CipherSubmission<C, K> {
    pub fn new(user_id: UserId, cipher_text: C, sks: K) -> (r: Self)
        ensures
            r.user_id == user_id,
            r.cipher_text == cipher_text,
            r.sks == sks,
    {
        CipherSubmission { user_id, cipher_text, sks }
    }
}

/// A user's decryption shares, one per output index, in index order.
pub struct DecryptionShareSubmission {
    pub user_id: UserId,
    pub decryption_shares: Vec<DecryptionShare>,
}

impl DecryptionShareSubmission {
    pub fn new(user_id: UserId, decryption_shares: Vec<DecryptionShare>) -> (r: Self)
        ensures
            r.user_id == user_id,
            r.decryption_shares@ == decryption_shares@,
    {
        DecryptionShareSubmission { user_id, decryption_shares }
    }
}

} // verus!
