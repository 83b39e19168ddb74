use vstd::prelude::*;

use crate::address::{find_review_address, review_address, Address};
use crate::error::ReviewError;
use crate::state::{
    lemma_decode_encode, lemma_zero_slot_decodes_empty, payload_len, spec_decode, spec_encode,
    MovieAccountState, ReviewRecord, ACCOUNT_LEN,
};

verus! {

/// The outcome of checking a review request: the slot address and its bump
/// seed, or the first check that failed. The checks run in order: rating,
/// encoded size, owner's signature, slot address.
pub open spec fn spec_plan(
    program_id: Seq<u8>,
    owner: Seq<u8>,
    owner_signed: bool,
    slot_key: Seq<u8>,
    title: Seq<char>,
    rating: u8,
    description: Seq<char>,
) -> Result<(Seq<u8>, u8), ReviewError> {
    if rating < 1 || rating > 5 {
        Err(ReviewError::InvalidRating)
    } else if payload_len(title, description) > ACCOUNT_LEN {
        Err(ReviewError::InvalidDataLength)
    } else if !owner_signed {
        Err(ReviewError::MissingAuthorization)
    } else {
        match review_address(owner, title, program_id) {
            None => Err(ReviewError::AddressDerivationExhausted),
            Some((address, bump)) => if address != slot_key {
                Err(ReviewError::InvalidPDA)
            } else {
                Ok((address, bump))
            },
        }
    }
}

/// The plain value of a checked request.
pub open spec fn plan_view(r: Result<(Address, u8), ReviewError>) -> Result<(Seq<u8>, u8), ReviewError> {
    match r {
        Ok((address, bump)) => Ok((address@, bump)),
        Err(e) => Err(e),
    }
}

/// The outcome of writing a new review into a slot holding `data`, and the
/// slot's bytes afterwards. The slot must decode to an uninitialized record
/// with room for the new one; on any failure the bytes stay as they were.
pub open spec fn spec_commit(data: Seq<u8>, title: Seq<char>, rating: u8, description: Seq<char>) -> (
    Result<(), ReviewError>,
    Seq<u8>,
) {
    let len = payload_len(title, description);
    match spec_decode(data) {
        None => (Err(ReviewError::InvalidAccountData), data),
        Some(current) => if current.is_initialized {
            (Err(ReviewError::AlreadyInitialized), data)
        } else if len > ACCOUNT_LEN || len > data.len() {
            (Err(ReviewError::InvalidDataLength), data)
        } else {
            let record = ReviewRecord { is_initialized: true, rating, title, description };
            (Ok(()), spec_encode(record) + data.subrange(len, data.len() as int))
        },
    }
}

/// A freshly allocated slot: `ACCOUNT_LEN` zero bytes.
pub open spec fn fresh_slot() -> Seq<u8> {
    Seq::new(ACCOUNT_LEN as nat, |i: int| 0u8)
}

/// The bytes of a slot, or `None` where it does not exist yet.
pub open spec fn slot_view(slot: Option<Vec<u8>>) -> Option<Seq<u8>> {
    match slot {
        Some(data) => Some(data@),
        None => None,
    }
}

/// The outcome of creating a review, and the slot afterwards: the request is
/// checked, a missing slot is allocated, and the review is committed. On any
/// failure the slot is left exactly as it was, allocation included.
pub open spec fn spec_add(
    program_id: Seq<u8>,
    owner: Seq<u8>,
    owner_signed: bool,
    slot_key: Seq<u8>,
    slot: Option<Seq<u8>>,
    title: Seq<char>,
    rating: u8,
    description: Seq<char>,
) -> (Result<(), ReviewError>, Option<Seq<u8>>) {
    match spec_plan(program_id, owner, owner_signed, slot_key, title, rating, description) {
        Err(e) => (Err(e), slot),
        Ok(_) => {
            let data = match slot {
                Some(d) => d,
                None => fresh_slot(),
            };
            let (r, written) = spec_commit(data, title, rating, description);
            if r is Ok {
                (r, Some(written))
            } else {
                (r, slot)
            }
        },
    }
}

/// Checks a request to review `title` before anything is allocated or
/// written, and returns the slot address with its bump seed.
pub fn plan_review(
    program_id: &Address,
    owner: &Address,
    owner_signed: bool,
    slot_key: &Address,
    title: &str,
    rating: u8,
    description: &str,
) -> (r: Result<(Address, u8), ReviewError>)
    ensures
        plan_view(r) == spec_plan(program_id@, owner@, owner_signed, slot_key@, title@, rating, description@),
{
    if rating > 5 || rating < 1 {
        return Err(ReviewError::InvalidRating);
    }
    let title_len = title.as_bytes().len();
    let description_len = description.as_bytes().len();
    if title_len > ACCOUNT_LEN || description_len > ACCOUNT_LEN || 1 + 1 + (4 + title_len) + (4
        + description_len) > ACCOUNT_LEN {
        return Err(ReviewError::InvalidDataLength);
    }
    if !owner_signed {
        return Err(ReviewError::MissingAuthorization);
    }
    let (pda, bump) = match find_review_address(program_id, owner, title) {
        Ok(found) => found,
        Err(e) => return Err(e),
    };
    if !(pda == *slot_key) {
        return Err(ReviewError::InvalidPDA);
    }
    Ok((pda, bump))
}

/// Writes a new review into a slot's bytes, at most once: a slot that already
/// holds a committed review is refused. On failure `data` is unchanged.
pub fn commit_review(data: &mut Vec<u8>, title: String, rating: u8, description: String) -> (r: Result<(), ReviewError>)
    ensures
        (r, final(data)@) == spec_commit(old(data)@, title@, rating, description@),
{
    let current = match MovieAccountState::decode(data.as_slice()) {
        Some(c) => c,
        None => return Err(ReviewError::InvalidAccountData),
    };
    if current.is_initialized() {
        return Err(ReviewError::AlreadyInitialized);
    }
    let title_len = title.as_str().as_bytes().len();
    let description_len = description.as_str().as_bytes().len();
    if title_len > ACCOUNT_LEN || description_len > ACCOUNT_LEN {
        return Err(ReviewError::InvalidDataLength);
    }
    let len = 1 + 1 + (4 + title_len) + (4 + description_len);
    if len > ACCOUNT_LEN || len > data.len() {
        return Err(ReviewError::InvalidDataLength);
    }
    let record = MovieAccountState { is_initialized: true, rating, title, description };
    proof {
        lemma_decode_encode(record@, Seq::empty());
    }
    let bytes = record.encode();
    let ghost before = data@;
    let mut i: usize = 0;
    while i < bytes.len()
        invariant
            bytes@.len() == len,
            len <= before.len(),
            data@.len() == before.len(),
            0 <= i <= len,
            forall|j: int| 0 <= j < i ==> data@[j] == bytes@[j],
            forall|j: int| i <= j < before.len() ==> data@[j] == before[j],
        decreases len - i,
    {
        data[i] = bytes[i];
        i += 1;
    }
    assert(data@ =~= spec_encode(record@) + before.subrange(len as int, before.len() as int));
    Ok(())
}

/// Creates the review of `title` by `owner` in the slot `slot_key`, whose
/// bytes are `slot` (`None` where it does not exist yet). The request is
/// checked first; a missing slot is then allocated with `ACCOUNT_LEN` zero
/// bytes and the review committed. On failure the slot is left as it was.
pub fn add_movie_review(
    program_id: &Address,
    owner: &Address,
    owner_signed: bool,
    slot_key: &Address,
    slot: &mut Option<Vec<u8>>,
    title: String,
    rating: u8,
    description: String,
) -> (r: Result<(), ReviewError>)
    ensures
        (r, slot_view(*final(slot))) == spec_add(
            program_id@,
            owner@,
            owner_signed,
            slot_key@,
            slot_view(*old(slot)),
            title@,
            rating,
            description@,
        ),
{
    if let Err(e) = plan_review(program_id, owner, owner_signed, slot_key, title.as_str(), rating, description.as_str()) {
        return Err(e);
    }
    match slot {
        Some(data) => commit_review(data, title, rating, description),
        None => {
            let mut data: Vec<u8> = vec![0u8; ACCOUNT_LEN];
            assert(data@ =~= fresh_slot());
            let r = commit_review(&mut data, title, rating, description);
            if r.is_ok() {
                *slot = Some(data);
            }
            r
        },
    }
}

/// A valid request whose derived address is the slot's own succeeds on a slot
/// that does not exist yet, and the new slot then reads back the review.
pub proof fn lemma_create_on_new_slot(
    program_id: Seq<u8>,
    owner: Seq<u8>,
    slot_key: Seq<u8>,
    title: Seq<char>,
    rating: u8,
    description: Seq<char>,
)
    requires
        1 <= rating <= 5,
        payload_len(title, description) <= ACCOUNT_LEN,
        review_address(owner, title, program_id) is Some,
        (review_address(owner, title, program_id)->0).0 == slot_key,
    ensures
        spec_add(program_id, owner, true, slot_key, None, title, rating, description).0 is Ok,
        spec_add(program_id, owner, true, slot_key, None, title, rating, description).1 is Some,
        spec_decode(spec_add(program_id, owner, true, slot_key, None, title, rating, description).1->0)
            == Some(ReviewRecord { is_initialized: true, rating, title, description }),
{
    lemma_zero_slot_decodes_empty(ACCOUNT_LEN as nat);
    let record = ReviewRecord { is_initialized: true, rating, title, description };
    let len = payload_len(title, description);
    lemma_decode_encode(record, fresh_slot().subrange(len, ACCOUNT_LEN as int));
}

/// A review is written at most once: after a successful create, a second
/// create of the same title by the same owner with any well-formed payload
/// fails with `AlreadyInitialized` and leaves the first review in place.
pub proof fn lemma_single_write(
    program_id: Seq<u8>,
    owner: Seq<u8>,
    slot_key: Seq<u8>,
    slot: Option<Seq<u8>>,
    title: Seq<char>,
    rating: u8,
    description: Seq<char>,
    rating2: u8,
    description2: Seq<char>,
)
    requires
        spec_add(program_id, owner, true, slot_key, slot, title, rating, description).0 is Ok,
        1 <= rating2 <= 5,
        payload_len(title, description2) <= ACCOUNT_LEN,
    ensures
        ({
            let after = spec_add(program_id, owner, true, slot_key, slot, title, rating, description).1;
            &&& after is Some
            &&& spec_decode(after->0) == Some(ReviewRecord { is_initialized: true, rating, title, description })
            &&& spec_add(program_id, owner, true, slot_key, after, title, rating2, description2) == (
                Err::<(), ReviewError>(ReviewError::AlreadyInitialized),
                after,
            )
        }),
{
    let data = match slot {
        Some(d) => d,
        None => fresh_slot(),
    };
    let record = ReviewRecord { is_initialized: true, rating, title, description };
    let len = payload_len(title, description);
    lemma_decode_encode(record, data.subrange(len, data.len() as int));
}

/// A slot address other than the derived one is refused with `InvalidPDA`
/// once the payload and the signature pass, and nothing is allocated or
/// written.
pub proof fn lemma_address_mismatch(
    program_id: Seq<u8>,
    owner: Seq<u8>,
    slot_key: Seq<u8>,
    slot: Option<Seq<u8>>,
    title: Seq<char>,
    rating: u8,
    description: Seq<char>,
)
    requires
        1 <= rating <= 5,
        payload_len(title, description) <= ACCOUNT_LEN,
        review_address(owner, title, program_id) is Some,
        (review_address(owner, title, program_id)->0).0 != slot_key,
    ensures
        spec_add(program_id, owner, true, slot_key, slot, title, rating, description) == (
            Err::<(), ReviewError>(ReviewError::InvalidPDA),
            slot,
        ),
{
}

} // verus!
