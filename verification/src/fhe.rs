use phantom_zone::MultiPartyDecryptor;
use crate::Seed;
use vstd::prelude::*;

verus! {

#[verifier::external_type_specification]
#[verifier::external_body]
pub struct ExParameterSelector(phantom_zone::ParameterSelector);

/// A participant's private FHE client key.
///
/// phantom_zone's underlying key struct sits in a private module of that
/// crate, so it cannot be declared to the verifier directly; this holder
/// carries it opaquely.
#[verifier::external_body]
pub struct ClientKey {
    pub inner: phantom_zone::ClientKey,
}

/// One homomorphically encrypted 8-bit word.
///
/// As with [`ClientKey`], the underlying struct of phantom_zone is not
/// nameable as a declared type, so the value is carried opaquely.
#[verifier::external_body]
pub struct FheUint8 {
    pub inner: phantom_zone::FheUint8,
}

/// Relies on phantom_zone::gen_client_key: samples a fresh client key from
/// the parameter set installed on this thread. Panics if no parameter set
/// was installed (see [`set_parameters`]).
#[verifier::external_body]
pub(crate) fn gen_client_key() -> ClientKey {
    ClientKey { inner: phantom_zone::gen_client_key() }
}

/// Establishes the cryptographic context for this process: the parameter
/// set for this thread, and the common reference seed shared by every
/// participant. Called once, at startup; each additional worker thread
/// installs the parameter set again with [`set_parameters`].
pub fn setup(seed: &Seed, select: phantom_zone::ParameterSelector) {
    set_parameters(select);
    set_reference_seed(*seed);
}

/// Relies on phantom_zone::set_parameter_set: installs the chosen parameter
/// set as this thread's FHE evaluation context.
#[verifier::external_body]
pub fn set_parameters(select: phantom_zone::ParameterSelector) {
    phantom_zone::set_parameter_set(select);
}

/// Relies on phantom_zone::set_common_reference_seed: installs the common
/// reference seed, a process-wide value that can be set only once; a second
/// call panics, so callers install it a single time at startup. It also
/// panics when no parameter set is installed on the calling thread: the
/// outside function asserts the installed parameters' variant before it
/// stores the seed, so [`set_parameters`] must come first.
#[verifier::external_body]
pub(crate) fn set_reference_seed(seed: Seed) {
    phantom_zone::set_common_reference_seed(seed);
}

/// Relies on phantom_zone's MultiPartyDecryptor for FheUint8: returns this
/// party's decryption share for one output, one entry per bit of the word.
#[verifier::external_body]
pub(crate) fn gen_decryption_share(ck: &ClientKey, out: &FheUint8) -> (r: Vec<u64>)
    ensures
        r@.len() == 8,
{
    ck.inner.gen_decryption_share(&out.inner)
}

/// Relies on phantom_zone's MultiPartyDecryptor for FheUint8: aggregates one
/// decryption share per party into the plaintext word. Each share must hold
/// one entry per bit of the word; the call indexes the first 8.
#[verifier::external_body]
pub(crate) fn aggregate_decryption_shares(ck: &ClientKey, out: &FheUint8, shares: &Vec<Vec<u64>>) -> u8
    requires
        forall|i: int| 0 <= i < shares@.len() ==> (#[trigger] shares@[i])@.len() >= 8,
{
    ck.inner.aggregate_decryption_shares(&out.inner, shares.as_slice())
}

} // verus!
