use crate::dashboard::Dashboard;
use crate::types::{DecryptionShare, Error, RegisteredUser, ServerStatus, UserStatus, UserView};
use crate::{Seed, UserId};
use vstd::prelude::*;
use vstd::std_specs::vec::vec_index_mut;

verus! {

/// One participant's submission slot. It moves forward along
/// `Empty -> CipherSks -> DecryptionShare(None) -> DecryptionShare(Some(_))`
/// and never backward; the step from `CipherSks` to `DecryptionShare` happens
/// for all participants together, when the run is dispatched.
pub enum UserStorage<C, K> {
    Empty,
    CipherSks(C, K),
    DecryptionShare(Option<Vec<DecryptionShare>>),
}

/// Mathematical image of a [`UserStorage`] slot.
#[verifier::ext_equal]
pub ghost enum SlotView<C, K> {
    Empty,
    Cipher { cipher: C, key_share: K },
    Shares { shares: Option<Seq<Seq<u64>>> },
}

impl<C, K> View for UserStorage<C, K> {
    type V = SlotView<C, K>;

    open spec fn view(&self) -> SlotView<C, K> {
        match self {
            UserStorage::Empty => SlotView::Empty,
            UserStorage::CipherSks(c, k) => SlotView::Cipher { cipher: *c, key_share: *k },
            UserStorage::DecryptionShare(ds) => SlotView::Shares {
                shares: match ds {
                    Some(v) => Some(v.deep_view()),
                    None => None,
                },
            },
        }
    }
}

impl<C, K> UserStorage<C, K> {
    /// The cipher and key share held by this slot, if it is in that state.
    pub fn get_cipher_sks(&self) -> (r: Option<(&C, &K)>)
        ensures
            match r {
                Some((c, k)) => self@ == (SlotView::Cipher { cipher: *c, key_share: *k }),
                None => !(self@ is Cipher),
            },
    {
        match self {
            UserStorage::CipherSks(c, k) => Some((c, k)),
            _ => None,
        }
    }
}

/// Mathematical image of the whole coordinator state.
#[verifier::ext_equal]
pub ghost struct ServerView<C, K, O> {
    pub seed: Seq<u8>,
    pub state: ServerStatus,
    pub users: Seq<UserView>,
    pub slots: Seq<SlotView<C, K>>,
    pub outputs: Seq<O>,
}

/// Every slot holds a cipher and key share.
pub open spec fn all_ciphers<C, K>(slots: Seq<SlotView<C, K>>) -> bool {
    forall|i: int| 0 <= i < slots.len() ==> (#[trigger] slots[i]) is Cipher
}

impl<C, K, O> ServerView<C, K, O> {
    /// The coordinator's invariant: ids are dense and in registration order,
    /// one slot per user, the slots' shapes agree with the phase, and the
    /// outputs are installed exactly in `CompletedFhe`, one per participant.
    pub open spec fn wf(self) -> bool {
        &&& self.users.len() == self.slots.len()
        &&& forall|i: int| 0 <= i < self.users.len() ==> (#[trigger] self.users[i]).id == i
        &&& match self.state {
            ServerStatus::ReadyForJoining => {
                &&& forall|i: int|
                    0 <= i < self.slots.len() ==> (#[trigger] self.slots[i]) is Empty
                &&& self.outputs.len() == 0
            },
            ServerStatus::ReadyForInputs => {
                &&& forall|i: int|
                    0 <= i < self.slots.len() ==> ((#[trigger] self.slots[i]) is Empty
                        || self.slots[i] is Cipher)
                &&& self.outputs.len() == 0
            },
            ServerStatus::ReadyForRunning => {
                &&& all_ciphers(self.slots)
                &&& self.outputs.len() == 0
            },
            ServerStatus::RunningFhe => {
                &&& self.shares_phase()
                &&& self.outputs.len() == 0
            },
            ServerStatus::CompletedFhe => {
                &&& self.shares_phase()
                &&& self.outputs.len() == self.users.len()
            },
        }
    }

    /// Every slot is a share slot, and a submitted share bundle holds one
    /// share per output index.
    pub open spec fn shares_phase(self) -> bool {
        forall|i: int|
            0 <= i < self.slots.len() ==> ((#[trigger] self.slots[i]) matches SlotView::Shares {
                shares,
            } && (shares matches Some(s) ==> s.len() == self.users.len()))
    }

    /// The state right after construction.
    pub open spec fn initial(seed: Seq<u8>) -> Self {
        ServerView {
            seed,
            state: ServerStatus::ReadyForJoining,
            users: Seq::empty(),
            slots: Seq::empty(),
            outputs: Seq::empty(),
        }
    }

    /// Registration appends a participant with the next dense id and an
    /// empty slot.
    pub open spec fn register_post(self, name: Seq<char>) -> Self {
        ServerView {
            users: self.users.push(
                UserView { id: self.users.len() as int, name, status: UserStatus::IDAcquired },
            ),
            slots: self.slots.push(SlotView::Empty),
            ..self
        }
    }

    /// Concluding registration fixes the participant count and opens the
    /// input phase.
    pub open spec fn conclude_post(self) -> Self {
        ServerView { state: ServerStatus::ReadyForInputs, ..self }
    }

    /// A cipher submission overwrites the sender's slot (last write wins) and,
    /// exactly when it fills the last gap, flips the phase to
    /// `ReadyForRunning`.
    pub open spec fn submit_post(self, user_id: int, cipher: C, key_share: K) -> Self {
        let slots = self.slots.update(user_id, SlotView::Cipher { cipher, key_share });
        ServerView {
            slots,
            users: self.users.update(
                user_id,
                UserView { status: UserStatus::CipherSubmitted, ..self.users[user_id] },
            ),
            state: if all_ciphers(slots) {
                ServerStatus::ReadyForRunning
            } else {
                self.state
            },
            ..self
        }
    }

    /// Dispatching the run drains every slot into the background snapshot and
    /// replaces it with an unfilled share slot.
    pub open spec fn drain_post(self) -> Self {
        ServerView {
            slots: Seq::new(self.slots.len(), |i: int| SlotView::Shares { shares: None }),
            state: ServerStatus::RunningFhe,
            ..self
        }
    }

    /// Completion installs the outputs, one per participant.
    pub open spec fn complete_post(self, outputs: Seq<O>) -> Self {
        ServerView { outputs, state: ServerStatus::CompletedFhe, ..self }
    }

    /// A share submission fills the sender's share slot, one share per
    /// output index.
    pub open spec fn submit_shares_post(self, user_id: int, shares: Seq<Seq<u64>>) -> Self {
        ServerView {
            slots: self.slots.update(user_id, SlotView::Shares { shares: Some(shares) }),
            users: self.users.update(
                user_id,
                UserView { status: UserStatus::DecryptionShareSubmitted, ..self.users[user_id] },
            ),
            ..self
        }
    }
}

/// What a `run` call decided.
#[derive(Debug)]
pub enum RunStep<C, K> {
    /// The caller must now hand this snapshot to the background computation:
    /// the key shares and ciphers, both indexed by user id.
    Dispatch { key_shares: Vec<K>, ciphers: Vec<C> },
    /// The background computation has not reported back yet.
    Running,
    /// The outputs are installed; nothing is left to dispatch.
    Completed,
}

/// The coordinator: the single owner of the protocol phase, the registered
/// participants, their submission slots and the installed outputs. `C`, `K`
/// and `O` are the ciphertext, server-key-share and output payloads, which
/// the coordinator routes but never inspects.
pub struct ServerStorage<C, K, O> {
    pub seed: Seed,
    pub state: ServerStatus,
    pub users: Vec<RegisteredUser>,
    pub slots: Vec<UserStorage<C, K>>,
    pub fhe_outputs: Vec<O>,
}

impl<C, K, O> View for ServerStorage<C, K, O> {
    type V = ServerView<C, K, O>;

    open spec fn view(&self) -> ServerView<C, K, O> {
        ServerView {
            seed: self.seed@,
            state: self.state,
            users: Seq::new(self.users@.len(), |i: int| self.users@[i]@),
            slots: Seq::new(self.slots@.len(), |i: int| self.slots@[i]@),
            outputs: self.fhe_outputs@,
        }
    }
}

impl<C, K, O> ServerStorage<C, K, O> {
    pub fn new(seed: Seed) -> (r: Self)
        ensures
            r@ =~= ServerView::initial(seed@),
            r@.wf(),
    {
        ServerStorage {
            seed,
            state: ServerStatus::ReadyForJoining,
            users: Vec::new(),
            slots: Vec::new(),
            fhe_outputs: Vec::new(),
        }
    }

    /// The common setup seed, shared with every participant.
    pub fn get_seed(&self) -> (r: Seed)
        ensures
            r@ == self@.seed,
    {
        self.seed
    }

    /// A snapshot of the phase and the registered participants.
    pub fn get_dashboard(&self) -> (r: Dashboard)
        ensures
            r@.status == self@.state,
            r@.users == self@.users,
    {
        Dashboard::new(self.state, &self.users)
    }

    /// Registers a name, assigning the next dense id. Legal only in
    /// `ReadyForJoining`.
    pub fn register(&mut self, name: &str) -> (r: Result<RegisteredUser, Error>)
        requires
            old(self)@.wf(),
        ensures
            final(self)@.wf(),
            match r {
                Ok(user) => {
                    &&& old(self)@.state is ReadyForJoining
                    &&& user@ == (UserView {
                        id: old(self)@.users.len() as int,
                        name: name@,
                        status: UserStatus::IDAcquired,
                    })
                    &&& final(self)@ =~= old(self)@.register_post(name@)
                },
                Err(e) => {
                    &&& !(old(self)@.state is ReadyForJoining)
                    &&& e == (Error::WrongPhase {
                        expect: ServerStatus::ReadyForJoining,
                        got: old(self)@.state,
                    })
                    &&& final(self)@ =~= old(self)@
                },
            },
    {
        if !matches!(self.state, ServerStatus::ReadyForJoining) {
            return Err(
                Error::WrongPhase { expect: ServerStatus::ReadyForJoining, got: self.state },
            );
        }
        let id = self.users.len();
        let user = RegisteredUser::new(id, name);
        self.users.push(user.duplicate());
        self.slots.push(UserStorage::Empty);
        proof {
            let pre = old(self)@;
            let post = self@;
            assert(post =~= pre.register_post(name@));
            assert forall|i: int| 0 <= i < post.users.len() implies (#[trigger] post.users[i]).id
                == i by {
                if i < pre.users.len() {
                    assert(pre.users[i].id == i);
                }
            }
            assert forall|i: int| 0 <= i < post.slots.len() implies (#[trigger] post.slots[i])
                is Empty by {
                if i < pre.slots.len() {
                    assert(pre.slots[i] is Empty);
                }
            }
        }
        Ok(user)
    }

    /// Fixes the participant count and opens the input phase, returning a
    /// snapshot. Legal only in `ReadyForJoining`; irreversible.
    pub fn conclude_registration(&mut self) -> (r: Result<Dashboard, Error>)
        requires
            old(self)@.wf(),
        ensures
            final(self)@.wf(),
            match r {
                Ok(d) => {
                    &&& old(self)@.state is ReadyForJoining
                    &&& final(self)@ =~= old(self)@.conclude_post()
                    &&& d@.status is ReadyForInputs
                    &&& d@.users == old(self)@.users
                },
                Err(e) => {
                    &&& !(old(self)@.state is ReadyForJoining)
                    &&& e == (Error::WrongPhase {
                        expect: ServerStatus::ReadyForJoining,
                        got: old(self)@.state,
                    })
                    &&& final(self)@ =~= old(self)@
                },
            },
    {
        if !matches!(self.state, ServerStatus::ReadyForJoining) {
            return Err(
                Error::WrongPhase { expect: ServerStatus::ReadyForJoining, got: self.state },
            );
        }
        self.state = ServerStatus::ReadyForInputs;
        Ok(self.get_dashboard())
    }

    /// Whether every slot holds a cipher and key share.
    pub fn check_cipher_submission(&self) -> (r: bool)
        ensures
            r == all_ciphers(self@.slots),
    {
        let mut i: usize = 0;
        while i < self.slots.len()
            invariant
                i <= self.slots@.len(),
                forall|j: int| 0 <= j < i ==> (#[trigger] self@.slots[j]) is Cipher,
            decreases self.slots@.len() - i,
        {
            match &self.slots[i] {
                UserStorage::CipherSks(_, _) => {},
                _ => {
                    proof {
                        assert(!(self@.slots[i as int] is Cipher));
                    }
                    return false;
                },
            }
            i += 1;
        }
        true
    }

    /// Accepts a user's (ciphertext, key share) pair, overwriting any earlier
    /// submission by the same user. Legal only in `ReadyForInputs`. When the
    /// write fills the last empty slot, the phase flips to `ReadyForRunning`
    /// in the same step.
    pub fn submit_cipher(&mut self, user_id: UserId, cipher: C, sks: K) -> (r: Result<
        UserId,
        Error,
    >)
        requires
            old(self)@.wf(),
        ensures
            final(self)@.wf(),
            match r {
                Ok(uid) => {
                    &&& uid == user_id
                    &&& old(self)@.state is ReadyForInputs
                    &&& user_id < old(self)@.users.len()
                    &&& final(self)@ =~= old(self)@.submit_post(user_id as int, cipher, sks)
                },
                Err(e) => {
                    &&& final(self)@ =~= old(self)@
                    &&& if !(old(self)@.state is ReadyForInputs) {
                        e == (Error::WrongPhase {
                            expect: ServerStatus::ReadyForInputs,
                            got: old(self)@.state,
                        })
                    } else {
                        &&& user_id >= old(self)@.users.len()
                        &&& e == (Error::UnknownUser { user_id })
                    }
                },
            },
    {
        if !matches!(self.state, ServerStatus::ReadyForInputs) {
            return Err(Error::WrongPhase { expect: ServerStatus::ReadyForInputs, got: self.state });
        }
        if user_id >= self.users.len() {
            return Err(Error::UnknownUser { user_id });
        }
        let slot = vec_index_mut(&mut self.slots, user_id);
        *slot = UserStorage::CipherSks(cipher, sks);
        let mut updated = self.users[user_id].duplicate();
        updated.status = UserStatus::CipherSubmitted;
        *vec_index_mut(&mut self.users, user_id) = updated;
        if self.check_cipher_submission() {
            self.state = ServerStatus::ReadyForRunning;
        }
        proof {
            let pre = old(self)@;
            let post = self@;
            let sp = pre.submit_post(user_id as int, cipher, sks);
            assert(post.users =~= sp.users);
            assert(post.slots =~= sp.slots);
            assert(post =~= sp);
            assert forall|i: int| 0 <= i < post.users.len() implies (#[trigger] post.users[i]).id
                == i by {
                assert(pre.users[i].id == i);
            }
            if !(post.state is ReadyForRunning) {
                assert forall|i: int|
                    0 <= i < post.slots.len() implies ((#[trigger] post.slots[i]) is Empty
                    || post.slots[i] is Cipher) by {
                    if i != user_id {
                        assert(pre.slots[i] is Empty || pre.slots[i] is Cipher);
                    }
                }
            }
        }
        Ok(user_id)
    }

    /// Drives the run according to the phase. In `ReadyForRunning` it drains
    /// every slot into a snapshot for the background computation, replaces
    /// each with an unfilled share slot, moves to `RunningFhe` and returns
    /// the snapshot. In `RunningFhe` it installs the outputs if the
    /// background computation reported back through `finished`, and
    /// otherwise reports `Running` without changing anything, so polling is
    /// idempotent and never dispatches a second computation. In
    /// `CompletedFhe` it is a no-op. In any earlier phase it fails.
    pub fn run(&mut self, finished: Option<Vec<O>>) -> (r: Result<RunStep<C, K>, Error>)
        requires
            old(self)@.wf(),
            finished matches Some(o) ==> o@.len() == old(self)@.users.len(),
        ensures
            final(self)@.wf(),
            match r {
                Ok(step) => match step {
                    RunStep::Dispatch { key_shares, ciphers } => {
                        &&& old(self)@.state is ReadyForRunning
                        &&& key_shares@.len() == old(self)@.users.len()
                        &&& ciphers@.len() == old(self)@.users.len()
                        &&& forall|i: int|
                            0 <= i < old(self)@.slots.len() ==> ((#[trigger] old(
                                self,
                            )@.slots[i]) matches SlotView::Cipher { cipher, key_share }
                                && ciphers@[i] == cipher && key_shares@[i] == key_share)
                        &&& final(self)@ =~= old(self)@.drain_post()
                    },
                    RunStep::Running => {
                        &&& old(self)@.state is RunningFhe
                        &&& finished is None
                        &&& final(self)@ =~= old(self)@
                    },
                    RunStep::Completed => {
                        ||| {
                            &&& old(self)@.state is RunningFhe
                            &&& finished matches Some(o)
                            &&& final(self)@ =~= old(self)@.complete_post(o@)
                        }
                        ||| {
                            &&& old(self)@.state is CompletedFhe
                            &&& final(self)@ =~= old(self)@
                        }
                    },
                },
                Err(e) => match e {
                    Error::WrongPhase { expect, got } => {
                        &&& expect is ReadyForRunning
                        &&& got == old(self)@.state
                        &&& (old(self)@.state is ReadyForJoining || old(self)@.state
                            is ReadyForInputs)
                        &&& final(self)@ =~= old(self)@
                    },
                    Error::CipherNotFound { user_id } => {
                        &&& old(self)@.state is ReadyForRunning
                        &&& 0 <= user_id < old(self)@.slots.len()
                        &&& !(old(self)@.slots[user_id as int] is Cipher)
                        &&& final(self)@ =~= (ServerView {
                            state: ServerStatus::ReadyForInputs,
                            ..old(self)@
                        })
                    },
                    _ => false,
                },
            },
    {
        match self.state {
            ServerStatus::ReadyForRunning => {
                // Check that every submission is present; a gap here means the
                // auto-transition invariant was violated, so roll back to the
                // input phase rather than leaving the system stuck.
                let n = self.slots.len();
                let mut i: usize = 0;
                while i < n
                    invariant
                        old(self)@.wf(),
                        old(self)@.state is ReadyForRunning,
                        self@ =~= old(self)@,
                        n == self.slots@.len(),
                        i <= n,
                    decreases n - i,
                {
                    match &self.slots[i] {
                        UserStorage::CipherSks(_, _) => {},
                        _ => {
                            self.state = ServerStatus::ReadyForInputs;
                            return Err(Error::CipherNotFound { user_id: i });
                        },
                    }
                    i += 1;
                }
                // Drain each slot into the snapshot, replacing it with an
                // unfilled share slot.
                let mut key_shares: Vec<K> = Vec::new();
                let mut ciphers: Vec<C> = Vec::new();
                let mut i: usize = 0;
                while i < n
                    invariant
                        old(self)@.wf(),
                        old(self)@.state is ReadyForRunning,
                        n == self.slots@.len(),
                        n == old(self)@.slots.len(),
                        i <= n,
                        self.seed == old(self).seed,
                        self.state == old(self).state,
                        self@.users == old(self)@.users,
                        self@.outputs == old(self)@.outputs,
                        ciphers@.len() == i,
                        key_shares@.len() == i,
                        forall|j: int|
                            0 <= j < i ==> (#[trigger] self.slots@[j])@ == (SlotView::<
                                C,
                                K,
                            >::Shares { shares: None }),
                        forall|j: int|
                            i <= j < n ==> (#[trigger] self.slots@[j])@ == old(self)@.slots[j],
                        forall|j: int|
                            0 <= j < i ==> ((#[trigger] old(self)@.slots[j]) matches SlotView::Cipher {
                                cipher,
                                key_share,
                            } && ciphers@[j] == cipher && key_shares@[j] == key_share),
                    decreases n - i,
                {
                    proof {
                        assert(old(self)@.slots[i as int] is Cipher);
                    }
                    let mut tmp: UserStorage<C, K> = UserStorage::DecryptionShare(None);
                    let slot = vec_index_mut(&mut self.slots, i);
                    core::mem::swap(slot, &mut tmp);
                    match tmp {
                        UserStorage::CipherSks(c, k) => {
                            ciphers.push(c);
                            key_shares.push(k);
                        },
                        _ => {
                            // The previous loop saw a cipher in every slot.
                            proof {
                                assert(false);
                            }
                            return Err(Error::CipherNotFound { user_id: i });
                        },
                    }
                    i += 1;
                }
                self.state = ServerStatus::RunningFhe;
                proof {
                    assert(self@ =~= old(self)@.drain_post());
                }
                Ok(RunStep::Dispatch { key_shares, ciphers })
            },
            ServerStatus::RunningFhe => {
                match finished {
                    Some(outputs) => {
                        self.fhe_outputs = outputs;
                        self.state = ServerStatus::CompletedFhe;
                        proof {
                            assert(self@ =~= old(self)@.complete_post(self@.outputs));
                        }
                        Ok(RunStep::Completed)
                    },
                    None => Ok(RunStep::Running),
                }
            },
            ServerStatus::CompletedFhe => Ok(RunStep::Completed),
            _ => Err(Error::WrongPhase { expect: ServerStatus::ReadyForRunning, got: self.state }),
        }
    }

    /// The evaluated outputs, one per participant, indexed by user id.
    /// Available exactly in `CompletedFhe`.
    pub fn get_outputs(&self) -> (r: Result<&Vec<O>, Error>)
        requires
            self@.wf(),
        ensures
            match r {
                Ok(outs) => {
                    &&& self@.state is CompletedFhe
                    &&& outs@ == self@.outputs
                    &&& outs@.len() == self@.users.len()
                },
                Err(e) => {
                    &&& !(self@.state is CompletedFhe)
                    &&& e == Error::OutputNotReady
                },
            },
    {
        if matches!(self.state, ServerStatus::CompletedFhe) {
            Ok(&self.fhe_outputs)
        } else {
            Err(Error::OutputNotReady)
        }
    }

    /// Records a user's decryption shares, one per output index in index
    /// order. Legal once the run has started, i.e. once the user's slot has
    /// become a share slot.
    pub fn submit_decryption_shares(&mut self, user_id: UserId, shares: Vec<DecryptionShare>) -> (r:
        Result<UserId, Error>)
        requires
            old(self)@.wf(),
            shares@.len() == old(self)@.users.len(),
        ensures
            final(self)@.wf(),
            match r {
                Ok(uid) => {
                    &&& uid == user_id
                    &&& user_id < old(self)@.users.len()
                    &&& old(self)@.slots[user_id as int] is Shares
                    &&& final(self)@ =~= old(self)@.submit_shares_post(
                        user_id as int,
                        shares.deep_view(),
                    )
                },
                Err(e) => {
                    &&& final(self)@ =~= old(self)@
                    &&& match e {
                        Error::UnknownUser { user_id: u } => u == user_id && user_id >= old(
                            self,
                        )@.users.len(),
                        Error::OutputNotReady => user_id < old(self)@.users.len() && !(old(
                            self,
                        )@.slots[user_id as int] is Shares),
                        _ => false,
                    }
                },
            },
    {
        if user_id >= self.users.len() {
            return Err(Error::UnknownUser { user_id });
        }
        match &self.slots[user_id] {
            UserStorage::DecryptionShare(_) => {},
            _ => {
                return Err(Error::OutputNotReady);
            },
        }
        let slot = vec_index_mut(&mut self.slots, user_id);
        *slot = UserStorage::DecryptionShare(Some(shares));
        let user = vec_index_mut(&mut self.users, user_id);
        user.status = UserStatus::DecryptionShareSubmitted;
        proof {
            let pre = old(self)@;
            let post = self@;
            assert(post =~= pre.submit_shares_post(user_id as int, shares.deep_view()));
            assert forall|i: int| 0 <= i < post.users.len() implies (#[trigger] post.users[i]).id
                == i by {
                assert(pre.users[i].id == i);
            }
            if pre.state is RunningFhe || pre.state is CompletedFhe {
                assert forall|i: int|
                    0 <= i < post.slots.len() implies ((#[trigger] post.slots[i]) matches SlotView::Shares {
                    shares: sh,
                } && (sh matches Some(s) ==> s.len() == post.users.len())) by {
                    if i != user_id {
                        assert(pre.slots[i] matches SlotView::Shares { shares: sh } && (
                        sh matches Some(s) ==> s.len() == pre.users.len()));
                    }
                }
            }
        }
        Ok(user_id)
    }

    /// One user's decryption share for one output, for pull-based retrieval
    /// by the other participants.
    pub fn get_decryption_share(&self, output_id: usize, user_id: UserId) -> (r: Result<
        DecryptionShare,
        Error,
    >)
        requires
            self@.wf(),
            output_id < self@.users.len(),
        ensures
            match r {
                Ok(s) => {
                    &&& user_id < self@.users.len()
                    &&& self@.slots[user_id as int] matches SlotView::Shares { shares: Some(sh) }
                        && s@ == sh[output_id as int]
                },
                Err(e) => match e {
                    Error::UnknownUser { user_id: u } => u == user_id && user_id
                        >= self@.users.len(),
                    Error::OutputNotReady => user_id < self@.users.len() && !(
                    self@.slots[user_id as int] is Shares),
                    Error::ShareNotFound { output_id: o, user_id: u } => {
                        &&& o == output_id
                        &&& u == user_id
                        &&& user_id < self@.users.len()
                        &&& self@.slots[user_id as int] == (SlotView::<C, K>::Shares {
                            shares: None,
                        })
                    },
                    _ => false,
                },
            },
    {
        if user_id >= self.users.len() {
            return Err(Error::UnknownUser { user_id });
        }
        match &self.slots[user_id] {
            UserStorage::DecryptionShare(Some(shares)) => {
                proof {
                    assert(self@.slots[user_id as int] matches SlotView::Shares {
                        shares: Some(sh),
                    } && sh.len() == self@.users.len());
                    assert(shares.deep_view().len() == shares@.len());
                }
                Ok(clone_share(&shares[output_id]))
            },
            UserStorage::DecryptionShare(None) => Err(Error::ShareNotFound { output_id, user_id }),
            _ => Err(Error::OutputNotReady),
        }
    }
}

/// One cipher submission, as the protocol laws speak of it: who submitted
/// which payload.
pub ghost struct Submission<C, K> {
    pub user_id: int,
    pub cipher: C,
    pub key_share: K,
}

/// The state after a whole sequence of cipher submissions, applied in order.
pub open spec fn apply_submissions<C, K, O>(
    v: ServerView<C, K, O>,
    subs: Seq<Submission<C, K>>,
) -> ServerView<C, K, O>
    decreases subs.len(),
{
    if subs.len() == 0 {
        v
    } else {
        apply_submissions(
            v.submit_post(subs[0].user_id, subs[0].cipher, subs[0].key_share),
            subs.drop_first(),
        )
    }
}

/// Some entry of `subs` comes from user `u`.
pub open spec fn submits<C, K>(subs: Seq<Submission<C, K>>, u: int) -> bool {
    exists|i: int| 0 <= i < subs.len() && (#[trigger] subs[i]).user_id == u
}

/// Ids are exactly the dense range: every registered participant carries its
/// position as its id, so there are no gaps and no duplicates, in
/// first-come order.
pub proof fn lemma_ids_dense<C, K, O>(v: ServerView<C, K, O>)
    requires
        v.wf(),
    ensures
        forall|i: int| 0 <= i < v.users.len() ==> (#[trigger] v.users[i]).id == i,
        forall|i: int, j: int|
            0 <= i < j < v.users.len() ==> v.users[i].id != v.users[j].id,
{
}

/// Concluding registration is irreversible: the phase it installs is not the
/// joining phase, so by `register`'s contract every later `register` call
/// fails with `WrongPhase`, whatever N is.
pub proof fn lemma_registration_closed<C, K, O>(v: ServerView<C, K, O>)
    requires
        v.wf(),
        v.state is ReadyForJoining,
    ensures
        v.conclude_post().state is ReadyForInputs,
        !(v.conclude_post().state is ReadyForJoining),
        v.conclude_post().wf(),
{
}

/// A single cipher submission preserves the coordinator invariant, in the
/// input phase as well as after the auto-transition.
pub proof fn lemma_submit_post_preserves_wf<C, K, O>(
    v: ServerView<C, K, O>,
    u: int,
    c: C,
    k: K,
)
    requires
        v.wf(),
        v.state is ReadyForInputs || v.state is ReadyForRunning,
        0 <= u < v.users.len(),
    ensures
        v.submit_post(u, c, k).wf(),
        v.submit_post(u, c, k).state is ReadyForInputs || v.submit_post(u, c, k).state
            is ReadyForRunning,
{
    let w = v.submit_post(u, c, k);
    assert forall|i: int| 0 <= i < w.users.len() implies (#[trigger] w.users[i]).id == i by {
        assert(v.users[i].id == i);
    }
    if !all_ciphers(w.slots) {
        assert forall|i: int|
            0 <= i < w.slots.len() implies ((#[trigger] w.slots[i]) is Empty || w.slots[i]
            is Cipher) by {
            if i != u {
                assert(v.slots[i] is Empty || v.slots[i] is Cipher);
            }
        }
    }
}

/// What a sequence of submissions does to the slots and the phase: a slot
/// holds a cipher exactly when it did before or its owner submitted, and the
/// phase has moved to `ReadyForRunning` exactly when at least one submission
/// arrived and the slots are now full. Only the set of submitting users
/// matters, not the order.
pub proof fn lemma_submissions_fill_slots<C, K, O>(
    v: ServerView<C, K, O>,
    subs: Seq<Submission<C, K>>,
)
    requires
        v.wf(),
        v.state is ReadyForInputs || v.state is ReadyForRunning,
        forall|i: int| 0 <= i < subs.len() ==> 0 <= (#[trigger] subs[i]).user_id < v.users.len(),
    ensures
        apply_submissions(v, subs).wf(),
        apply_submissions(v, subs).users.len() == v.users.len(),
        apply_submissions(v, subs).slots.len() == v.slots.len(),
        forall|u: int|
            0 <= u < v.slots.len() ==> ((#[trigger] apply_submissions(v, subs).slots[u]) is Cipher
                <==> (v.slots[u] is Cipher || submits(subs, u))),
        apply_submissions(v, subs).state == if subs.len() > 0 && all_ciphers(
            apply_submissions(v, subs).slots,
        ) {
            ServerStatus::ReadyForRunning
        } else {
            v.state
        },
    decreases subs.len(),
{
    if subs.len() == 0 {
    } else {
        let s0 = subs[0];
        let v1 = v.submit_post(s0.user_id, s0.cipher, s0.key_share);
        let rest = subs.drop_first();
        lemma_submit_post_preserves_wf(v, s0.user_id, s0.cipher, s0.key_share);
        lemma_submissions_fill_slots(v1, rest);
        let w = apply_submissions(v, subs);
        assert(w == apply_submissions(v1, rest));
        assert forall|u: int|
            0 <= u < v.slots.len() implies ((#[trigger] w.slots[u]) is Cipher <==> (v.slots[u]
            is Cipher || submits(subs, u))) by {
            assert(w.slots[u] is Cipher <==> (v1.slots[u] is Cipher || submits(rest, u)));
            if submits(rest, u) {
                let j = choose|j: int| 0 <= j < rest.len() && (#[trigger] rest[j]).user_id == u;
                assert(subs[j + 1].user_id == u);
            }
            if submits(subs, u) && !(s0.user_id == u) {
                let i = choose|i: int| 0 <= i < subs.len() && (#[trigger] subs[i]).user_id == u;
                assert(rest[i - 1].user_id == u);
            }
        }
        if v1.state is ReadyForRunning && !(v.state is ReadyForRunning) {
            // The first submission already filled the last gap; every later
            // submission keeps the slots full.
            assert(all_ciphers(v1.slots));
            assert forall|u: int| 0 <= u < v.slots.len() implies (#[trigger] w.slots[u])
                is Cipher by {
                assert(v1.slots[u] is Cipher);
            }
        }
        if w.state is ReadyForRunning && rest.len() == 0 {
            assert(w == v1);
        }
    }
}

/// Permutation invariance of the auto-transition, from a fresh input phase:
/// after any sequence of submissions the phase is `ReadyForRunning` exactly
/// when every participant is covered, whatever the order; while any
/// participant is missing it is still `ReadyForInputs`.
pub proof fn lemma_auto_transition_iff_all_submitted<C, K, O>(
    v: ServerView<C, K, O>,
    subs: Seq<Submission<C, K>>,
)
    requires
        v.wf(),
        v.state is ReadyForInputs,
        v.users.len() >= 1,
        forall|i: int| 0 <= i < v.slots.len() ==> (#[trigger] v.slots[i]) is Empty,
        forall|i: int| 0 <= i < subs.len() ==> 0 <= (#[trigger] subs[i]).user_id < v.users.len(),
    ensures
        apply_submissions(v, subs).state is ReadyForRunning <==> (forall|u: int|
            0 <= u < v.users.len() ==> submits(subs, u)),
        !(forall|u: int| 0 <= u < v.users.len() ==> submits(subs, u)) ==> apply_submissions(
            v,
            subs,
        ).state is ReadyForInputs,
{
    lemma_submissions_fill_slots(v, subs);
    let w = apply_submissions(v, subs);
    if forall|u: int| 0 <= u < v.users.len() ==> submits(subs, u) {
        assert forall|u: int| 0 <= u < w.slots.len() implies (#[trigger] w.slots[u])
            is Cipher by {
            assert(submits(subs, u));
        }
        assert(subs.len() > 0) by {
            assert(submits(subs, 0));
        }
    } else {
        let u = choose|u: int| 0 <= u < v.users.len() && !submits(subs, u);
        assert(!(w.slots[u] is Cipher));
    }
}

/// The auto-transition happens exactly once: when every participant submits
/// exactly once, in any order, the phase is still `ReadyForInputs` after
/// every proper prefix of the sequence and `ReadyForRunning` after the whole
/// of it — the flip happens at the last submission and at no earlier point.
pub proof fn lemma_phase_flips_exactly_once<C, K, O>(
    v: ServerView<C, K, O>,
    subs: Seq<Submission<C, K>>,
)
    requires
        v.wf(),
        v.state is ReadyForInputs,
        v.users.len() >= 1,
        forall|i: int| 0 <= i < v.slots.len() ==> (#[trigger] v.slots[i]) is Empty,
        forall|i: int| 0 <= i < subs.len() ==> 0 <= (#[trigger] subs[i]).user_id < v.users.len(),
        forall|i: int, j: int| 0 <= i < j < subs.len() ==> subs[i].user_id != subs[j].user_id,
        forall|u: int| 0 <= u < v.users.len() ==> submits(subs, u),
    ensures
        apply_submissions(v, subs).state is ReadyForRunning,
        forall|k: int|
            0 <= k < subs.len() ==> apply_submissions(v, subs.take(k)).state is ReadyForInputs,
{
    lemma_auto_transition_iff_all_submitted(v, subs);
    assert forall|k: int|
        0 <= k < subs.len() implies apply_submissions(v, subs.take(k)).state
        is ReadyForInputs by {
        let p = subs.take(k);
        assert(forall|i: int| 0 <= i < p.len() ==> 0 <= (#[trigger] p[i]).user_id < v.users.len());
        // The user of entry k has not submitted within the prefix: the ids
        // are distinct.
        let missing = subs[k].user_id;
        assert(!submits(p, missing)) by {
            if submits(p, missing) {
                let i = choose|i: int| 0 <= i < p.len() && (#[trigger] p[i]).user_id == missing;
                assert(subs[i].user_id == subs[k].user_id);
            }
        }
        lemma_auto_transition_iff_all_submitted(v, p);
    }
}

/// Resubmission before the run starts: when a user submits twice, only the
/// second payload is left in the slot, so only it is handed to the circuit
/// evaluation when `run` drains the slots.
pub proof fn lemma_resubmission_last_write_wins<C, K, O>(
    v: ServerView<C, K, O>,
    u: int,
    c1: C,
    k1: K,
    c2: C,
    k2: K,
)
    requires
        v.wf(),
        0 <= u < v.users.len(),
    ensures
        v.submit_post(u, c1, k1).submit_post(u, c2, k2).slots[u] == (SlotView::<C, K>::Cipher {
            cipher: c2,
            key_share: k2,
        }),
        v.submit_post(u, c1, k1).submit_post(u, c2, k2).slots =~= v.submit_post(u, c2, k2).slots,
{
    assert(v.submit_post(u, c1, k1).submit_post(u, c2, k2).slots =~= v.submit_post(
        u,
        c2,
        k2,
    ).slots);
}

/// A field-for-field copy of one decryption share.
pub fn clone_share(v: &Vec<u64>) -> (r: Vec<u64>)
    ensures
        r@ == v@,
{
    let mut r: Vec<u64> = Vec::new();
    let mut i: usize = 0;
    while i < v.len()
        invariant
            i <= v@.len(),
            r@ == v@.subrange(0, i as int),
        decreases v@.len() - i,
    {
        r.push(v[i]);
        i += 1;
    }
    proof {
        assert(r@ =~= v@);
    }
    r
}

} // verus!
