use puzzle_contracts::dynamic_nft::{DynamicNftContract, DynamicNftError};

const ADMIN: u64 = 1;
const ORACLE: u64 = 2;
const USER: u64 = 3;

fn setup() -> DynamicNftContract {
    let mut c = DynamicNftContract::new();
    c.initialize(ADMIN, ORACLE).unwrap();
    c
}

fn rule(c: &mut DynamicNftContract, min_xp: u64, level: u32, uri: &str) {
    c.add_evolution_rule(ADMIN, min_xp, level, uri.to_string()).unwrap();
}

#[test]
fn dynamic_nft_test_initialize() {
    let c = setup();
    assert!(c.admins.contains(&ADMIN));
    assert!(c.oracles.contains(&ORACLE));
}

#[test]
fn test_mint() {
    let mut c = setup();
    let token_id = c.mint(USER).unwrap();
    assert_eq!(token_id, 1);
    let nft = c.get_nft(token_id).unwrap();
    assert_eq!(nft.token_id, 1);
    assert_eq!(nft.owner, USER);
    assert_eq!(nft.level, 1);
    assert_eq!(nft.evolution_stage, 1);
    assert_eq!(nft.xp, 0);
    assert_eq!(nft.metadata_uri, "ipfs://base-metadata");
}

#[test]
fn test_add_xp() {
    let mut c = setup();
    let token_id = c.mint(USER).unwrap();
    c.add_xp(ORACLE, token_id, 100).unwrap();
    assert_eq!(c.get_nft(token_id).unwrap().xp, 100);
}

#[test]
fn test_add_xp_unauthorized() {
    let mut c = setup();
    let token_id = c.mint(USER).unwrap();
    assert_eq!(c.add_xp(99, token_id, 100), Err(DynamicNftError::NotOracle));
}

#[test]
fn test_evolution_rule_management() {
    let mut c = setup();
    rule(&mut c, 100, 2, "ipfs://level2-metadata");
    let rules = c.get_evolution_rules();
    assert_eq!(rules.len(), 1);
    assert_eq!(rules[0].min_xp, 100);
    assert_eq!(rules[0].new_level, 2);
    assert_eq!(rules[0].new_metadata_uri, "ipfs://level2-metadata");
    c.remove_evolution_rule(ADMIN, 100).unwrap();
    assert_eq!(c.get_evolution_rules().len(), 0);
}

#[test]
fn test_evolution_trigger() {
    let mut c = setup();
    let token_id = c.mint(USER).unwrap();
    rule(&mut c, 100, 2, "ipfs://level2-metadata");
    c.add_xp(ORACLE, token_id, 150).unwrap();
    let nft = c.get_nft(token_id).unwrap();
    assert_eq!(nft.level, 2);
    assert_eq!(nft.evolution_stage, 2);
    assert_eq!(nft.metadata_uri, "ipfs://level2-metadata");
    assert_eq!(nft.xp, 150);
}

#[test]
fn test_manual_evolution() {
    let mut c = setup();
    let token_id = c.mint(USER).unwrap();
    rule(&mut c, 100, 2, "ipfs://level2-metadata");
    c.add_xp(ORACLE, token_id, 50).unwrap();
    assert_eq!(c.get_nft(token_id).unwrap().level, 1);
    c.add_xp(ORACLE, token_id, 50).unwrap();
    assert_eq!(c.get_nft(token_id).unwrap().level, 2);
}

#[test]
fn test_soulbound_restriction() {
    let mut c = setup();
    let token_id = c.mint(USER).unwrap();
    assert_eq!(c.transfer(USER, 4, token_id), Err(DynamicNftError::Soulbound));
    rule(&mut c, 100, 2, "ipfs://level2-metadata");
    rule(&mut c, 200, 3, "ipfs://level3-metadata");
    c.add_xp(ORACLE, token_id, 200).unwrap();
    c.transfer(USER, 4, token_id).unwrap();
    assert_eq!(c.get_nft(token_id).unwrap().owner, 4);
}

#[test]
fn test_max_level_cap() {
    let mut c = setup();
    let token_id = c.mint(USER).unwrap();
    rule(&mut c, 100, 2, "ipfs://level2");
    rule(&mut c, 200, 3, "ipfs://level3");
    rule(&mut c, 300, 4, "ipfs://level4");
    rule(&mut c, 400, 5, "ipfs://level5");
    c.add_xp(ORACLE, token_id, 500).unwrap();
    assert_eq!(c.get_nft(token_id).unwrap().level, 5);
    c.add_xp(ORACLE, token_id, 100).unwrap();
    let nft = c.get_nft(token_id).unwrap();
    assert_eq!(nft.level, 5);
    assert_eq!(nft.metadata_uri, "ipfs://level5");
}

#[test]
fn test_oracle_update() {
    let mut c = setup();
    let token_id = c.mint(USER).unwrap();
    c.add_xp(ORACLE, token_id, 50).unwrap();
    c.update_oracle(ADMIN, 9).unwrap();
    assert_eq!(c.add_xp(ORACLE, token_id, 50), Err(DynamicNftError::NotOracle));
    c.add_xp(9, token_id, 50).unwrap();
    assert_eq!(c.get_nft(token_id).unwrap().xp, 100);
}

#[test]
fn test_event_emission() {
    let mut c = setup();
    let token_id = c.mint(USER).unwrap();
    c.add_xp(ORACLE, token_id, 100).unwrap();
    rule(&mut c, 50, 2, "ipfs://level2-metadata");
    c.add_xp(ORACLE, token_id, 50).unwrap();
    assert_eq!(c.get_nft(token_id).unwrap().level, 2);
}

#[test]
fn test_evolve_unauthorized() {
    let mut c = setup();
    let token_id = c.mint(USER).unwrap();
    assert_eq!(c.evolve(99, token_id), Err(DynamicNftError::NotOwner));
}

#[test]
fn test_evolution_rule_unauthorized() {
    let mut c = setup();
    assert_eq!(c.add_evolution_rule(99, 100, 2, "ipfs://level2".to_string()), Err(DynamicNftError::NotAdmin));
}

#[test]
fn owner_evolves_after_rule_added_later() {
    let mut c = setup();
    let token_id = c.mint(USER).unwrap();
    c.add_xp(ORACLE, token_id, 300).unwrap();
    rule(&mut c, 250, 3, "ipfs://level3");
    assert_eq!(c.get_nft(token_id).unwrap().level, 1);
    c.evolve(USER, token_id).unwrap();
    let nft = c.get_nft(token_id).unwrap();
    assert_eq!(nft.level, 3);
    assert_eq!(nft.evolution_stage, 2);
}
