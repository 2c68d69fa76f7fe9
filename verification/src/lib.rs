//! Verified state machines for a family of Soroban game contracts.
//!
//! Each module holds the storage of one contract as plain values (accounts
//! are numeric ids, token movements are returned as `Transfer` orders) and
//! one method per contract entry point, with a contract that states the
//! resulting storage and the value returned, or the error and an unchanged
//! storage when the call is rejected.
use vstd::prelude::*;

pub mod util;
pub mod host;
pub mod achievement_sets;
pub mod hint_marketplace;
pub mod conditional_reward;
pub mod nft_trait_marketplace;
pub mod nft_upgrade;
pub mod immutable_leaderboard;
pub mod airdrop_merkle_claim;
pub mod fractional_nft;
pub mod nft_bundle;
pub mod flash_challenge;
pub mod puzzle_insurance;
pub mod community_grant;
pub mod loyalty_points;
pub mod puzzle_crowdfund;
pub mod nft_staking;
pub mod emergency_pause;
pub mod identity;
pub mod liquidity_mining;
pub mod oracle_price_feed;
pub mod proof_of_activity;
pub mod dynamic_nft;
pub mod event_ticket;
pub mod progressive_jackpot;
pub mod puzzle_co_creation;
pub mod puzzle_pool_staking;
pub mod achievement_nft;
pub mod clawback_reward;
pub mod gamification_rewards;

verus! {

} // verus!
