use vstd::prelude::*;

mod circuit;
mod client;
mod dashboard;
mod fhe;
mod response;
mod server;
mod types;

pub use types::CipherSubmission;
pub use types::DecryptionShare;
pub use types::DecryptionShareSubmission;
pub use types::Error;
pub use types::RegisteredUser;
pub use types::RegistrationOut;
pub use types::ServerStatus;
pub use types::UserStatus;
pub use types::UserView;

pub use server::RunStep;
pub use server::ServerStorage;
pub use server::ServerView;
pub use server::SlotView;
pub use server::Submission;
pub use server::UserStorage;
pub use server::all_ciphers;
pub use server::apply_submissions;
pub use server::clone_share;
pub use server::lemma_auto_transition_iff_all_submitted;
pub use server::lemma_ids_dense;
pub use server::lemma_phase_flips_exactly_once;
pub use server::lemma_registration_closed;
pub use server::lemma_resubmission_last_write_wins;
pub use server::lemma_submissions_fill_slots;
pub use server::lemma_submit_post_preserves_wf;
pub use server::submits;

pub use dashboard::Dashboard;
pub use dashboard::DashboardView;

pub use circuit::evaluate_circuit;
pub use circuit::evaluate_output;
pub use circuit::folds_given;
pub use circuit::folds_received;
pub use circuit::net_balance;
pub use circuit::net_balances;
pub use circuit::sum_column;
pub use circuit::sum_given;
pub use circuit::sum_received;
pub use circuit::sum_row;
pub use circuit::wires_circuit;
pub use circuit::wires_output;

pub use client::DecryptionSharesMap;
pub use client::User;
pub use client::clone_scores;
pub use client::id_bound;
pub use client::share_key;

pub use fhe::ClientKey;
pub use fhe::FheUint8;
pub use fhe::set_parameters;
pub use fhe::setup;

pub use response::ServerResponse;
pub use response::dec_str;
pub use response::digit_char;
pub use response::format_usize;
pub use response::spec_status_name;
pub use response::status_name;

verus! {

/// A user's dense identifier, assigned at registration in arrival order.
pub type UserId = usize;

/// The common setup seed shared with every participant.
pub type Seed = [u8; 32];

} // verus!
