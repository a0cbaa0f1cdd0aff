use crate::types::{RegisteredUser, ServerStatus, UserView};
use vstd::prelude::*;

verus! {

/// Mathematical image of a [`Dashboard`].
#[verifier::ext_equal]
pub ghost struct DashboardView {
    pub status: ServerStatus,
    pub users: Seq<UserView>,
}

/// A snapshot of the coordinator handed to clients: the current phase and
/// the registered participants.
#[derive(Debug)]
pub struct Dashboard {
    pub status: ServerStatus,
    pub users: Vec<RegisteredUser>,
}

impl View for Dashboard {
    type V = DashboardView;

    open spec fn view(&self) -> DashboardView {
        DashboardView {
            status: self.status,
            users: Seq::new(self.users@.len(), |i: int| self.users@[i]@),
        }
    }
}

impl Dashboard {
    pub fn new(status: ServerStatus, users: &Vec<RegisteredUser>) -> (r: Self)
        ensures
            r@.status == status,
            r@.users == Seq::new(users@.len(), |i: int| users@[i]@),
    {
        let mut copies: Vec<RegisteredUser> = Vec::new();
        let mut i: usize = 0;
        while i < users.len()
            invariant
                i <= users@.len(),
                copies@.len() == i,
                forall|j: int| 0 <= j < i ==> (#[trigger] copies@[j])@ == users@[j]@,
            decreases users@.len() - i,
        {
            copies.push(users[i].duplicate());
            i += 1;
        }
        let r = Dashboard { status, users: copies };
        proof {
            assert(r@.users =~= Seq::new(users@.len(), |i: int| users@[i]@));
        }
        r
    }

    /// The registered names, in registration order.
    pub fn get_names(&self) -> (r: Vec<String>)
        ensures
            r@.len() == self@.users.len(),
            forall|i: int| 0 <= i < r@.len() ==> (#[trigger] r@[i])@ == self@.users[i].name,
    {
        let mut names: Vec<String> = Vec::new();
        let mut i: usize = 0;
        while i < self.users.len()
            invariant
                i <= self.users@.len(),
                names@.len() == i,
                forall|j: int| 0 <= j < i ==> (#[trigger] names@[j])@ == self.users@[j]@.name,
            decreases self.users@.len() - i,
        {
            names.push(self.users[i].name.clone());
            i += 1;
        }
        names
    }

    /// Whether registration has just been concluded: the phase in which
    /// cipher submissions are accepted.
    pub fn is_concluded(&self) -> (r: bool)
        ensures
            r == (self@.status is ReadyForInputs),
    {
        matches!(self.status, ServerStatus::ReadyForInputs)
    }

    /// Whether the homomorphic evaluation has completed.
    pub fn is_fhe_complete(&self) -> (r: bool)
        ensures
            r == (self@.status is CompletedFhe),
    {
        matches!(self.status, ServerStatus::CompletedFhe)
    }
}

} // verus!
