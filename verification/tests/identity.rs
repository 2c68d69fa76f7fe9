use puzzle_contracts::identity::{IdentityContract, IdentityError, SocialLinks, TRANSFER_COOLDOWN_SECONDS};

const ADMIN: u64 = 1;
const USER: u64 = 2;
const OTHER: u64 = 3;

fn name(s: &str) -> Vec<u8> {
    s.as_bytes().to_vec()
}

fn setup() -> IdentityContract {
    let mut c = IdentityContract::new();
    c.initialize(ADMIN).unwrap();
    c
}

#[test]
fn test_register_and_resolve() {
    let mut c = setup();
    c.register(USER, name("alice"), 5).unwrap();
    assert_eq!(c.resolve_username(name("alice")), Some(USER));
    let identity = c.resolve_address(USER).unwrap();
    assert_eq!(identity.username, name("alice"));
    assert_eq!(identity.address, USER);
    assert!(!identity.verified);
    assert!(identity.avatar_hash.is_none());
    assert!(identity.bio_hash.is_none());
    assert_eq!(identity.registered_at, 5);
}

#[test]
fn test_duplicate_username_rejection() {
    let mut c = setup();
    c.register(USER, name("bob"), 0).unwrap();
    assert_eq!(c.register(OTHER, name("bob"), 0), Err(IdentityError::UsernameTaken));
}

#[test]
fn test_address_already_has_identity() {
    let mut c = setup();
    c.register(USER, name("charlie"), 0).unwrap();
    assert_eq!(c.register(USER, name("charlie2"), 0), Err(IdentityError::AddressHasIdentity));
}

#[test]
fn test_invalid_username_too_short() {
    let mut c = setup();
    assert_eq!(c.register(USER, name("ab"), 0), Err(IdentityError::InvalidUsernameLength));
}

#[test]
fn test_invalid_username_too_long() {
    let mut c = setup();
    assert_eq!(c.register(USER, name("abcdefghijklmnopqrstuvwxyz"), 0), Err(IdentityError::InvalidUsernameLength));
}

#[test]
fn test_invalid_username_non_alphanumeric() {
    let mut c = setup();
    assert_eq!(c.register(USER, name("ab"), 0), Err(IdentityError::InvalidUsernameLength));
}

#[test]
fn username_length_bounds_are_inclusive() {
    let mut c = setup();
    c.register(USER, name("abc"), 0).unwrap();
    c.register(OTHER, name("abcdefghijklmnopqrst"), 0).unwrap();
}

#[test]
fn test_update_profile() {
    let mut c = setup();
    c.register(USER, name("dave"), 0).unwrap();
    let social = SocialLinks {
        twitter: Some("@dave".to_string()),
        discord: Some("dave#1234".to_string()),
        github: Some("davegh".to_string()),
    };
    c.update_profile(USER, Some("avatarhash".to_string()), Some("biohash".to_string()), social).unwrap();
    let identity = c.resolve_address(USER).unwrap();
    assert_eq!(identity.avatar_hash, Some("avatarhash".to_string()));
    assert_eq!(identity.bio_hash, Some("biohash".to_string()));
    assert_eq!(identity.social_links.twitter, Some("@dave".to_string()));
    assert_eq!(identity.social_links.discord, Some("dave#1234".to_string()));
    assert_eq!(identity.social_links.github, Some("davegh".to_string()));
}

#[test]
fn test_verify_identity() {
    let mut c = setup();
    c.register(USER, name("eve"), 0).unwrap();
    assert!(!c.resolve_address(USER).unwrap().verified);
    assert_eq!(c.verify_identity(OTHER, USER), Err(IdentityError::AdminOnly));
    c.verify_identity(ADMIN, USER).unwrap();
    assert!(c.resolve_address(USER).unwrap().verified);
}

#[test]
fn test_transfer_username_with_cooldown() {
    let mut c = setup();
    c.register(USER, name("frank"), 0).unwrap();
    c.transfer_username(USER, OTHER, 100).unwrap();
    assert_eq!(c.resolve_username(name("frank")), Some(OTHER));
    assert!(c.resolve_address(USER).is_none());
    let identity = c.resolve_address(OTHER).unwrap();
    assert_eq!(identity.username, name("frank"));
    assert_eq!(identity.address, OTHER);
}

#[test]
fn test_transfer_username_cooldown_violation() {
    let mut c = setup();
    c.register(USER, name("grace"), 0).unwrap();
    c.transfer_username(USER, OTHER, 100).unwrap();
    assert_eq!(c.transfer_username(OTHER, USER, 100), Err(IdentityError::CooldownNotElapsed));
    c.transfer_username(OTHER, USER, 100 + TRANSFER_COOLDOWN_SECONDS).unwrap();
    assert_eq!(c.resolve_username(name("grace")), Some(USER));
}

#[test]
fn unknown_identity_is_reported() {
    let mut c = setup();
    assert_eq!(c.resolve_username(name("nobody")), None);
    assert_eq!(c.transfer_username(USER, OTHER, 0), Err(IdentityError::IdentityNotFound));
}
