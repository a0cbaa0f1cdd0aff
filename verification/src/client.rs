use crate::fhe::{self, ClientKey, FheUint8};
use crate::server::clone_share;
use crate::types::DecryptionShare;
use crate::{Seed, UserId};
use std::collections::HashMap;
use vstd::prelude::*;

verus! {

broadcast use vstd::std_specs::hash::group_hash_axioms;

/// The largest id usable as half of a packed share-map key.
pub open spec fn id_bound() -> int {
    0x1_0000_0000
}

/// How a (output index, contributing user) pair is packed into one map key.
pub open spec fn share_key(output_id: int, user_id: int) -> int {
    output_id * 0x1_0000_0000 + user_id
}

/// The collection of decryption shares a client has gathered, keyed by
/// (output index, contributing user id). A cell is written once when the
/// share is fetched or generated; an idempotent re-write of the same cell is
/// the only re-write the protocol performs.
pub struct DecryptionSharesMap {
    inner: HashMap<u64, DecryptionShare>,
}

impl View for DecryptionSharesMap {
    type V = Map<(int, int), Seq<u64>>;

    closed spec fn view(&self) -> Map<(int, int), Seq<u64>> {
        Map::new(
            |p: (int, int)|
                0 <= p.0 < id_bound() && 0 <= p.1 < id_bound() && self.inner@.contains_key(
                    share_key(p.0, p.1) as u64,
                ),
            |p: (int, int)| self.inner@[share_key(p.0, p.1) as u64]@,
        )
    }
}

impl DecryptionSharesMap {
    pub fn new() -> (r: Self)
        ensures
            r@ == Map::<(int, int), Seq<u64>>::empty(),
    {
        let r = DecryptionSharesMap { inner: HashMap::new() };
        proof {
            assert(r@ =~= Map::<(int, int), Seq<u64>>::empty());
        }
        r
    }

    /// Records the share of `user_id` for output `output_id`, overwriting
    /// any share already held for that cell.
    pub fn insert(&mut self, output_id: usize, user_id: UserId, share: DecryptionShare)
        requires
            output_id < id_bound(),
            user_id < id_bound(),
        ensures
            final(self)@ == old(self)@.insert((output_id as int, user_id as int), share@),
    {
        let key: u64 = (output_id as u64) * 0x1_0000_0000u64 + (user_id as u64);
        self.inner.insert(key, share);
        proof {
            assert(final(self)@ =~= old(self)@.insert(
                (output_id as int, user_id as int),
                share@,
            ));
        }
    }

    /// The share of `user_id` for output `output_id`, if it has been
    /// gathered.
    pub fn get(&self, output_id: usize, user_id: UserId) -> (r: Option<&DecryptionShare>)
        requires
            output_id < id_bound(),
            user_id < id_bound(),
        ensures
            match r {
                Some(s) => self@.contains_key((output_id as int, user_id as int)) && s@
                    == self@[(output_id as int, user_id as int)],
                None => !self@.contains_key((output_id as int, user_id as int)),
            },
    {
        let key: u64 = (output_id as u64) * 0x1_0000_0000u64 + (user_id as u64);
        self.inner.get(&key)
    }
}

/// A field-for-field copy of one score row.
pub fn clone_scores(v: &Vec<u8>) -> (r: Vec<u8>)
    ensures
        r@ == v@,
{
    let mut r: Vec<u8> = Vec::new();
    let mut i: usize = 0;
    while i < v.len()
        invariant
            i <= v@.len(),
            r@ == v@.subrange(0, i as int),
        decreases v@.len() - i,
    {
        r.push(v[i]);
        i += 1;
    }
    proof {
        assert(r@ =~= v@);
    }
    r
}

/// One participant's client-side state, advanced step by step: acquire the
/// seed, generate the client key, register for an id, learn the participant
/// count, choose scores, fetch the outputs, and exchange decryption shares.
/// The encrypted material itself (the score ciphertext and the server key
/// share) is produced straight from the client key and handed to the
/// coordinator without being held here.
pub struct User {
    pub name: String,
    pub seed: Option<Seed>,
    pub ck: Option<ClientKey>,
    pub id: Option<usize>,
    pub total_users: Option<usize>,
    pub scores: Option<Vec<u8>>,
    pub fhe_out: Option<Vec<FheUint8>>,
    pub decryption_shares: DecryptionSharesMap,
}

impl User {
    pub fn new(name: &str) -> (r: Self)
        ensures
            r.name@ == name@,
            r.seed is None,
            r.ck is None,
            r.id is None,
            r.total_users is None,
            r.scores is None,
            r.fhe_out is None,
            r.decryption_shares@ == Map::<(int, int), Seq<u64>>::empty(),
    {
        User {
            name: name.to_owned(),
            seed: None,
            ck: None,
            id: None,
            total_users: None,
            scores: None,
            fhe_out: None,
            decryption_shares: DecryptionSharesMap::new(),
        }
    }

    pub fn update_name(&mut self, name: &str)
        ensures
            *final(self) == (User { name: final(self).name, ..*old(self) }),
            final(self).name@ == name@,
    {
        self.name = name.to_owned();
    }

    pub fn assign_seed(&mut self, seed: Seed)
        ensures
            *final(self) == (User { seed: Some(seed), ..*old(self) }),
    {
        self.seed = Some(seed);
    }

    /// Installs the acquired seed as the process-wide common reference seed.
    /// The seed can be installed only once per process (see
    /// [`fhe::set_reference_seed`]), so this is called a single time, before
    /// any key or cipher is generated — and only in a client process that
    /// has not already installed a seed: after [`crate::setup`] has run, the
    /// seed is in place and this call panics. It also panics when no
    /// parameter set is installed on the calling thread.
    pub fn set_seed(&self)
        requires
            self.seed is Some,
    {
        if let Some(seed) = self.seed {
            fhe::set_reference_seed(seed);
        }
    }

    pub fn gen_client_key(&mut self)
        ensures
            *final(self) == (User { ck: final(self).ck, ..*old(self) }),
            final(self).ck is Some,
    {
        self.ck = Some(fhe::gen_client_key());
    }

    pub fn set_id(&mut self, id: UserId)
        ensures
            *final(self) == (User { id: Some(id), ..*old(self) }),
    {
        self.id = Some(id);
    }

    pub fn set_total_users(&mut self, total_users: usize)
        ensures
            *final(self) == (User { total_users: Some(total_users), ..*old(self) }),
    {
        self.total_users = Some(total_users);
    }

    pub fn assign_scores(&mut self, scores: &Vec<u8>)
        ensures
            *final(self) == (User { scores: final(self).scores, ..*old(self) }),
            final(self).scores matches Some(s) && s@ == scores@,
    {
        self.scores = Some(clone_scores(scores));
    }

    pub fn set_fhe_out(&mut self, fhe_out: Vec<FheUint8>)
        ensures
            *final(self) == (User { fhe_out: Some(fhe_out), ..*old(self) }),
    {
        self.fhe_out = Some(fhe_out);
    }

    /// Generates this participant's own decryption share for every output
    /// and records each under (output index, own id).
    pub fn gen_decryption_shares(&mut self)
        requires
            old(self).ck is Some,
            old(self).fhe_out is Some,
            old(self).id matches Some(id) && id < id_bound(),
            old(self).fhe_out matches Some(outs) && outs@.len() < id_bound(),
        ensures
            *final(self) == (User { decryption_shares: final(self).decryption_shares, ..*old(self) }),
            forall|o: int|
                0 <= o < old(self).fhe_out->Some_0@.len() ==> {
                    &&& final(self).decryption_shares@.contains_key(
                        (o, old(self).id->Some_0 as int),
                    )
                    &&& final(self).decryption_shares@[(o, old(self).id->Some_0 as int)].len() == 8
                },
            forall|p: (int, int)|
                (p.1 != old(self).id->Some_0 as int || !(0 <= p.0 < old(self).fhe_out->Some_0@.len()))
                    ==> (#[trigger] final(self).decryption_shares@.contains_key(p) == old(
                    self,
                ).decryption_shares@.contains_key(p) && (old(
                    self,
                ).decryption_shares@.contains_key(p) ==> final(self).decryption_shares@[p] == old(
                    self,
                ).decryption_shares@[p])),
    {
        let my_id = match self.id {
            Some(id) => id,
            None => {
                return ;
            },
        };
        let n_outputs = match &self.fhe_out {
            Some(outs) => outs.len(),
            None => {
                return ;
            },
        };
        let mut output_id: usize = 0;
        while output_id < n_outputs
            invariant
                self.ck is Some,
                self.fhe_out is Some,
                my_id == old(self).id->Some_0,
                my_id < id_bound(),
                n_outputs == old(self).fhe_out->Some_0@.len(),
                n_outputs < id_bound(),
                output_id <= n_outputs,
                self.name == old(self).name,
                self.seed == old(self).seed,
                self.ck == old(self).ck,
                self.id == old(self).id,
                self.total_users == old(self).total_users,
                self.scores == old(self).scores,
                self.fhe_out == old(self).fhe_out,
                forall|o: int|
                    0 <= o < output_id ==> {
                        &&& self.decryption_shares@.contains_key((o, my_id as int))
                        &&& self.decryption_shares@[(o, my_id as int)].len() == 8
                    },
                forall|p: (int, int)|
                    (p.1 != my_id as int || !(0 <= p.0 < n_outputs)) ==> (#[trigger] self.decryption_shares@.contains_key(
                        p,
                    ) == old(self).decryption_shares@.contains_key(p) && (old(
                        self,
                    ).decryption_shares@.contains_key(p) ==> self.decryption_shares@[p] == old(
                        self,
                    ).decryption_shares@[p])),
            decreases n_outputs - output_id,
        {
            let share = match (&self.ck, &self.fhe_out) {
                (Some(ck), Some(outs)) => fhe::gen_decryption_share(ck, &outs[output_id]),
                _ => {
                    return ;
                },
            };
            self.decryption_shares.insert(output_id, my_id, share);
            output_id += 1;
        }
    }

    /// This participant's own shares, one per output index, in index order.
    pub fn get_my_shares(&self) -> (r: Vec<DecryptionShare>)
        requires
            self.id matches Some(id) && id < id_bound(),
            self.total_users matches Some(n) && n < id_bound(),
            forall|o: int|
                0 <= o < self.total_users->Some_0 ==> self.decryption_shares@.contains_key(
                    (o, self.id->Some_0 as int),
                ),
        ensures
            r@.len() == self.total_users->Some_0,
            forall|o: int|
                0 <= o < r@.len() ==> (#[trigger] r@[o])@ == self.decryption_shares@[(
                    o,
                    self.id->Some_0 as int,
                )],
    {
        let my_id = match self.id {
            Some(id) => id,
            None => {
                return Vec::new();
            },
        };
        let total_users = match self.total_users {
            Some(n) => n,
            None => {
                return Vec::new();
            },
        };
        let mut shares: Vec<DecryptionShare> = Vec::new();
        let mut output_id: usize = 0;
        while output_id < total_users
            invariant
                my_id == self.id->Some_0,
                my_id < id_bound(),
                total_users == self.total_users->Some_0,
                total_users < id_bound(),
                output_id <= total_users,
                shares@.len() == output_id,
                forall|o: int|
                    0 <= o < total_users ==> self.decryption_shares@.contains_key(
                        (o, my_id as int),
                    ),
                forall|o: int|
                    0 <= o < output_id ==> (#[trigger] shares@[o])@ == self.decryption_shares@[(
                        o,
                        my_id as int,
                    )],
            decreases total_users - output_id,
        {
            match self.decryption_shares.get(output_id, my_id) {
                Some(share) => {
                    shares.push(clone_share(share));
                },
                None => {
                    return shares;
                },
            }
            output_id += 1;
        }
        shares
    }

    /// One output's full share row: the stored shares of users `0..N` for
    /// output `output_id`, in user-id order. This is exactly what the
    /// combiner hands to the aggregation for that output.
    pub fn share_row(&self, output_id: usize) -> (r: Vec<DecryptionShare>)
        requires
            self.total_users matches Some(n) && n < id_bound(),
            output_id < id_bound(),
            forall|u: int|
                0 <= u < self.total_users->Some_0 ==> self.decryption_shares@.contains_key(
                    (output_id as int, u),
                ),
        ensures
            r@.len() == self.total_users->Some_0,
            forall|u: int|
                0 <= u < r@.len() ==> (#[trigger] r@[u])@ == self.decryption_shares@[(
                    output_id as int,
                    u,
                )],
    {
        let total_users = match self.total_users {
            Some(n) => n,
            None => {
                return Vec::new();
            },
        };
        let mut shares: Vec<DecryptionShare> = Vec::new();
        let mut user_id: usize = 0;
        while user_id < total_users
            invariant
                total_users == self.total_users->Some_0,
                total_users < id_bound(),
                output_id < id_bound(),
                user_id <= total_users,
                shares@.len() == user_id,
                forall|u: int|
                    0 <= u < total_users ==> self.decryption_shares@.contains_key(
                        (output_id as int, u),
                    ),
                forall|u: int|
                    0 <= u < user_id ==> (#[trigger] shares@[u])@ == self.decryption_shares@[(
                        output_id as int,
                        u,
                    )],
            decreases total_users - user_id,
        {
            match self.decryption_shares.get(output_id, user_id) {
                Some(share) => {
                    shares.push(clone_share(share));
                },
                None => {
                    return shares;
                },
            }
            user_id += 1;
        }
        shares
    }

    /// Reconstructs every output's plaintext from the full share matrix: the
    /// word for output `i` is the aggregation of exactly the stored shares
    /// `(i, 0) .. (i, N-1)`, in user-id order — the row that [`share_row`]'s
    /// contract pins. The aggregated byte itself is computed by the FHE
    /// capability relative to its ambient parameter context, so no more can
    /// be said of its value here.
    pub fn decrypt_everything(&self) -> (r: Vec<u8>)
        requires
            self.ck is Some,
            self.fhe_out is Some,
            self.total_users matches Some(n) && n < id_bound(),
            self.fhe_out matches Some(outs) && outs@.len() < id_bound(),
            forall|o: int, u: int|
                0 <= o < self.fhe_out->Some_0@.len() && 0 <= u < self.total_users->Some_0 ==> {
                    &&& self.decryption_shares@.contains_key((o, u))
                    &&& self.decryption_shares@[(o, u)].len() == 8
                },
        ensures
            r@.len() == self.fhe_out->Some_0@.len(),
    {
        let (ck, outs) = match (&self.ck, &self.fhe_out) {
            (Some(ck), Some(outs)) => (ck, outs),
            _ => {
                return Vec::new();
            },
        };
        let total_users = match self.total_users {
            Some(n) => n,
            None => {
                return Vec::new();
            },
        };
        let mut plain: Vec<u8> = Vec::new();
        let mut output_id: usize = 0;
        while output_id < outs.len()
            invariant
                self.ck is Some,
                self.fhe_out is Some,
                outs@ == self.fhe_out->Some_0@,
                ck == &self.ck->Some_0,
                self.total_users is Some,
                total_users == self.total_users->Some_0,
                total_users < id_bound(),
                outs@.len() < id_bound(),
                output_id <= outs@.len(),
                plain@.len() == output_id,
                forall|o: int, u: int|
                    0 <= o < outs@.len() && 0 <= u < total_users ==> {
                        &&& self.decryption_shares@.contains_key((o, u))
                        &&& self.decryption_shares@[(o, u)].len() == 8
                    },
            decreases outs@.len() - output_id,
        {
            let row = self.share_row(output_id);
            proof {
                assert forall|u: int| 0 <= u < row@.len() implies (#[trigger] row@[u])@.len()
                    >= 8 by {
                    assert(self.decryption_shares@.contains_key((output_id as int, u))
                        && self.decryption_shares@[(output_id as int, u)].len() == 8);
                    assert(row@[u]@ == self.decryption_shares@[(output_id as int, u)]);
                }
            }
            let word = fhe::aggregate_decryption_shares(ck, &outs[output_id], &row);
            plain.push(word);
            output_id += 1;
        }
        plain
    }
}

} // verus!
