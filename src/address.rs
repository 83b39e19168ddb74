use solana_program::pubkey::Pubkey;
use vstd::prelude::*;
use vstd::utf8::encode_utf8;

use crate::error::ReviewError;

verus! {

/// A 32-byte account key: a user, a program or a storage slot.
#[derive(Debug, Clone, Copy)]
pub struct Address {
    pub bytes: [u8; 32],
}

impl View for Address {
    type V = Seq<u8>;

    open spec fn view(&self) -> Seq<u8> {
        self.bytes@
    }
}

impl PartialEq for Address {
    fn eq(&self, other: &Address) -> (r: bool) {
        let mut i: usize = 0;
        while i < 32
            invariant
                0 <= i <= 32,
                forall|j: int| 0 <= j < i ==> self.bytes@[j] == other.bytes@[j],
            decreases 32 - i,
        {
            if self.bytes[i] != other.bytes[i] {
                return false;
            }
            i += 1;
        }
        assert(self.bytes@ =~= other.bytes@);
        true
    }
}

impl vstd::std_specs::cmp::PartialEqSpecImpl for Address {
    open spec fn obeys_eq_spec() -> bool {
        true
    }

    open spec fn eq_spec(&self, other: &Address) -> bool {
        self@ == other@
    }
}

/// What program-address derivation gives for `seeds` under `program_id`:
/// the address and the bump seed, or nothing where no bump seed serves.
pub uninterp spec fn program_address(seeds: Seq<Seq<u8>>, program_id: Seq<u8>) -> Option<(Seq<u8>, u8)>;

/// The slot address and bump seed of the review of `title` by `owner`.
pub open spec fn review_address(owner: Seq<u8>, title: Seq<char>, program_id: Seq<u8>) -> Option<(Seq<u8>, u8)> {
    program_address(seq![owner, encode_utf8(title)], program_id)
}

/// The plain value of a derivation result.
pub open spec fn derived_view(r: Option<(Address, u8)>) -> Option<(Seq<u8>, u8)> {
    match r {
        Some((a, bump)) => Some((a@, bump)),
        None => None,
    }
}

/// Relies on solana_program's `Pubkey::try_find_program_address` with the seeds
/// `[owner, title]`: its result depends on the seeds and the program alone, and
/// a seed longer than 32 bytes makes it return `None`.
#[verifier::external_body]
fn try_find_program_address(owner: &Address, title: &str, program_id: &Address) -> (r: Option<(Address, u8)>)
    ensures
        derived_view(r) == program_address(seq![owner@, encode_utf8(title@)], program_id@),
        encode_utf8(title@).len() > 32 ==> r is None,
{
    let program = Pubkey::new_from_array(program_id.bytes);
    match Pubkey::try_find_program_address(&[&owner.bytes, title.as_bytes()], &program) {
        Some((pda, bump)) => Some((Address { bytes: pda.to_bytes() }, bump)),
        None => None,
    }
}

/// Derives the slot address of the review of `title` by `owner` under
/// `program_id`, with its bump seed.
pub fn find_review_address(program_id: &Address, owner: &Address, title: &str) -> (r: Result<(Address, u8), ReviewError>)
    ensures
        r is Ok <==> review_address(owner@, title@, program_id@) is Some,
        r is Ok ==> review_address(owner@, title@, program_id@) == Some((r->Ok_0.0@, r->Ok_0.1)),
        r is Err ==> r->Err_0 == ReviewError::AddressDerivationExhausted,
        encode_utf8(title@).len() > 32 ==> r == Err::<(Address, u8), ReviewError>(ReviewError::AddressDerivationExhausted),
{
    match try_find_program_address(owner, title, program_id) {
        Some(found) => Ok(found),
        None => Err(ReviewError::AddressDerivationExhausted),
    }
}

/// Derivation is deterministic: the same owner, title and program always give
/// the same address and bump seed.
pub proof fn lemma_derivation_deterministic(
    owner1: Seq<u8>,
    title1: Seq<char>,
    owner2: Seq<u8>,
    title2: Seq<char>,
    program_id: Seq<u8>,
)
    requires
        owner1 == owner2,
        title1 == title2,
    ensures
        review_address(owner1, title1, program_id) == review_address(owner2, title2, program_id),
{
}

} // verus!
