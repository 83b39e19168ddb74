use movie_review::address::{find_review_address, Address};
use movie_review::error::ReviewError;
use movie_review::processor::{add_movie_review, commit_review, plan_review};
use movie_review::state::{MovieAccountState, ACCOUNT_LEN};

const PROGRAM: Address = Address { bytes: [7u8; 32] };
const U1: Address = Address { bytes: [1u8; 32] };
const U2: Address = Address { bytes: [2u8; 32] };

fn slot_of(owner: &Address, title: &str) -> Address {
    find_review_address(&PROGRAM, owner, title).unwrap().0
}

fn create(owner: &Address, signed: bool, key: &Address, slot: &mut Option<Vec<u8>>, title: &str, rating: u8, description: &str) -> Result<(), ReviewError> {
    add_movie_review(&PROGRAM, owner, signed, key, slot, title.to_string(), rating, description.to_string())
}

#[test]
fn derivation_is_deterministic() {
    let a = find_review_address(&PROGRAM, &U1, "Dune").unwrap();
    let b = find_review_address(&PROGRAM, &U1, "Dune").unwrap();
    assert_eq!(a.0, b.0);
    assert_eq!(a.1, b.1);
    assert_ne!(a.0, U1);
    assert_ne!(a.0, PROGRAM);
}

#[test]
fn derivation_depends_on_owner_and_program() {
    let a = find_review_address(&PROGRAM, &U1, "Dune").unwrap().0;
    let b = find_review_address(&PROGRAM, &U2, "Dune").unwrap().0;
    let c = find_review_address(&U2, &U1, "Dune").unwrap().0;
    assert_ne!(a, b);
    assert_ne!(a, c);
}

#[test]
fn distinct_titles_give_distinct_addresses() {
    let mut seen: Vec<Address> = Vec::new();
    for i in 0..300 {
        let title = format!("movie {}", i);
        let a = slot_of(&U1, &title);
        assert!(!seen.contains(&a), "collision at {}", title);
        seen.push(a);
    }
}

#[test]
fn title_longer_than_a_seed_cannot_be_derived() {
    let title = "x".repeat(33);
    assert_eq!(find_review_address(&PROGRAM, &U1, &title).unwrap_err(), ReviewError::AddressDerivationExhausted);
    assert!(find_review_address(&PROGRAM, &U1, &"x".repeat(32)).is_ok());
    let mut slot = None;
    assert_eq!(create(&U1, true, &U2, &mut slot, &title, 3, "ok"), Err(ReviewError::AddressDerivationExhausted));
    assert!(slot.is_none());
}

#[test]
fn encoding_matches_layout() {
    let r = MovieAccountState { is_initialized: true, rating: 5, title: "Dune".to_string(), description: "Great film".to_string() };
    let bytes = r.encode();
    let mut expected = vec![1u8, 5, 4, 0, 0, 0];
    expected.extend_from_slice(b"Dune");
    expected.extend_from_slice(&[10, 0, 0, 0]);
    expected.extend_from_slice(b"Great film");
    assert_eq!(bytes, expected);
    let borsh_bytes = borsh::to_vec(&(true, 5u8, "Dune".to_string(), "Great film".to_string())).unwrap();
    assert_eq!(bytes, borsh_bytes);
}

#[test]
fn decode_of_encode_is_identity() {
    let r = MovieAccountState { is_initialized: false, rating: 3, title: "Amélie".to_string(), description: "日本語 ok".to_string() };
    let mut bytes = r.encode();
    bytes.extend_from_slice(&[9u8; 20]);
    let d = MovieAccountState::decode(&bytes).unwrap();
    assert!(!d.is_initialized());
    assert_eq!(d.rating, 3);
    assert_eq!(d.title, "Amélie");
    assert_eq!(d.description, "日本語 ok");
}

#[test]
fn encode_of_decode_is_identity() {
    let mut buffer = vec![1u8, 4, 2, 0, 0, 0, b'h', b'i', 3, 0, 0, 0, b'a', b'b', b'c'];
    let prefix = buffer.clone();
    buffer.resize(ACCOUNT_LEN, 0);
    let d = MovieAccountState::decode(&buffer).unwrap();
    assert_eq!(d.encode(), prefix);
}

#[test]
fn zero_slot_decodes_uninitialized() {
    let d = MovieAccountState::decode(&vec![0u8; ACCOUNT_LEN]).unwrap();
    assert!(!d.is_initialized());
    assert_eq!(d.rating, 0);
    assert_eq!(d.title, "");
    assert_eq!(d.description, "");
}

#[test]
fn malformed_bytes_do_not_decode() {
    assert!(MovieAccountState::decode(&[2u8, 0, 0, 0, 0, 0, 0, 0, 0, 0]).is_none());
    assert!(MovieAccountState::decode(&[0u8, 0, 0, 0, 0]).is_none());
    assert!(MovieAccountState::decode(&[0u8, 0, 5, 0, 0, 0, b'a', 0, 0, 0]).is_none());
    assert!(MovieAccountState::decode(&[0u8, 0, 1, 0, 0, 0, 0xff, 0, 0, 0, 0]).is_none());
}

#[test]
fn rating_boundaries() {
    let key = slot_of(&U1, "Dune");
    for bad in [0u8, 6] {
        let mut slot = None;
        assert_eq!(create(&U1, true, &key, &mut slot, "Dune", bad, "x"), Err(ReviewError::InvalidRating));
        assert!(slot.is_none());
    }
    for good in [1u8, 5] {
        let mut slot = None;
        assert_eq!(create(&U1, true, &key, &mut slot, "Dune", good, "x"), Ok(()));
        assert_eq!(MovieAccountState::decode(slot.as_ref().unwrap()).unwrap().rating, good);
    }
}

#[test]
fn size_boundary() {
    let key = slot_of(&U1, "Dune");
    let exact = "d".repeat(1000 - 10 - 4);
    let mut slot = None;
    assert_eq!(create(&U1, true, &key, &mut slot, "Dune", 4, &exact), Ok(()));
    let stored = slot.unwrap();
    assert_eq!(stored.len(), ACCOUNT_LEN);
    assert_eq!(MovieAccountState::decode(&stored).unwrap().description, exact);
    let over = "d".repeat(1000 - 10 - 4 + 1);
    let mut slot = None;
    assert_eq!(create(&U1, true, &key, &mut slot, "Dune", 4, &over), Err(ReviewError::InvalidDataLength));
    assert!(slot.is_none());
}

#[test]
fn second_create_is_refused() {
    let key = slot_of(&U1, "Dune");
    let mut slot = None;
    assert_eq!(create(&U1, true, &key, &mut slot, "Dune", 5, "Great film"), Ok(()));
    let first = slot.clone();
    assert_eq!(create(&U1, true, &key, &mut slot, "Dune", 1, "Changed my mind"), Err(ReviewError::AlreadyInitialized));
    assert_eq!(slot, first);
    let d = MovieAccountState::decode(slot.as_ref().unwrap()).unwrap();
    assert_eq!(d.rating, 5);
    assert_eq!(d.description, "Great film");
}

#[test]
fn wrong_slot_address_is_refused() {
    let other = slot_of(&U1, "Alien");
    for key in [other, U1, PROGRAM] {
        let mut slot = Some(vec![0u8; ACCOUNT_LEN]);
        assert_eq!(create(&U1, true, &key, &mut slot, "Dune", 5, "Great film"), Err(ReviewError::InvalidPDA));
        assert_eq!(slot, Some(vec![0u8; ACCOUNT_LEN]));
    }
    let mut slot = None;
    assert_eq!(create(&U2, true, &slot_of(&U1, "Dune"), &mut slot, "Dune", 5, "x"), Err(ReviewError::InvalidPDA));
}

#[test]
fn unsigned_owner_is_refused() {
    let key = slot_of(&U1, "Dune");
    let mut slot = None;
    assert_eq!(create(&U1, false, &key, &mut slot, "Dune", 5, "Great film"), Err(ReviewError::MissingAuthorization));
    assert!(slot.is_none());
}

#[test]
fn dune_scenario() {
    let (a, bump) = find_review_address(&PROGRAM, &U1, "Dune").unwrap();
    assert_eq!(plan_review(&PROGRAM, &U1, true, &a, "Dune", 5, "Great film"), Ok((a, bump)));
    let mut data = vec![0u8; ACCOUNT_LEN];
    assert!(!MovieAccountState::decode(&data).unwrap().is_initialized());
    assert_eq!(commit_review(&mut data, "Dune".to_string(), 5, "Great film".to_string()), Ok(()));
    let d = MovieAccountState::decode(&data).unwrap();
    assert!(d.is_initialized());
    assert_eq!(d.rating, 5);
    assert_eq!(d.title, "Dune");
    assert_eq!(d.description, "Great film");
    assert!(data[26..].iter().all(|b| *b == 0));
    let mut slot = Some(data.clone());
    assert_eq!(create(&U1, true, &a, &mut slot, "Dune", 2, "Meh"), Err(ReviewError::AlreadyInitialized));
    assert_eq!(slot, Some(data));
}

#[test]
fn commit_refuses_bad_slots() {
    let mut garbage = vec![7u8; ACCOUNT_LEN];
    assert_eq!(commit_review(&mut garbage, "Dune".to_string(), 5, "x".to_string()), Err(ReviewError::InvalidAccountData));
    assert_eq!(garbage, vec![7u8; ACCOUNT_LEN]);
    let mut small = vec![0u8; 12];
    assert_eq!(commit_review(&mut small, "Dune".to_string(), 5, "x".to_string()), Err(ReviewError::InvalidDataLength));
    assert_eq!(small, vec![0u8; 12]);
}

#[test]
fn custom_codes() {
    assert_eq!(ReviewError::UninitializedAccount.custom_code(), Some(0));
    assert_eq!(ReviewError::InvalidPDA.custom_code(), Some(1));
    assert_eq!(ReviewError::InvalidDataLength.custom_code(), Some(2));
    assert_eq!(ReviewError::InvalidRating.custom_code(), Some(3));
    assert_eq!(ReviewError::AlreadyInitialized.custom_code(), None);
}
