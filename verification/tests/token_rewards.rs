use educhain::token::{EctToken, IssueOutcome, TokenError, TokenEvent};
use multiversx_sc::codec::num_bigint::BigUint;

fn amt(x: u128) -> BigUint {
    BigUint::from(x)
}

const OWNER: [u8; 32] = [9u8; 32];
const DISTRIBUTOR: [u8; 32] = [5u8; 32];
const STUDENT: [u8; 32] = [1u8; 32];
const OTHER: [u8; 32] = [2u8; 32];
const ECT: &[u8] = b"ECT-a1b2c3";

fn issued() -> EctToken {
    let mut token = EctToken::init(OWNER);
    token.issue_token(OWNER, 50_000_000_000_000_000, b"EduChainToken".to_vec(), b"ECT".to_vec(), 18, 1_000).unwrap();
    assert!(token.issue_callback(IssueOutcome::Issued(ECT.to_vec())).is_none());
    token
}

#[test]
fn ect_token_scenario_rs_test_deploy_rs() {
    let token = EctToken::init(OWNER);
    assert_eq!(token.get_treasury_balance_view(), amt(0));
    assert_eq!(token.get_total_distributed(), amt(0));
    assert_eq!(token.get_pending_balance(STUDENT), amt(0));
    assert!(!token.is_distributor(OWNER));
    assert!(token.get_token_id().is_none());
}

#[test]
fn add_reward_and_claim_rs() {
    let mut token = issued();
    token.add_distributor(OWNER, DISTRIBUTOR).unwrap();
    let (id, minted) = token.mint_rewards(OWNER, amt(1_000_000)).unwrap();
    assert_eq!(id, ECT.to_vec());
    assert_eq!(minted, amt(1_000_000));
    match token.add_reward(DISTRIBUTOR, STUDENT, amt(50), b"modul-1").unwrap() {
        TokenEvent::RewardAdded { beneficiary, amount, reason } => {
            assert_eq!(beneficiary, STUDENT);
            assert_eq!(amount, amt(50));
            assert_eq!(reason, b"modul-1".to_vec());
        }
        other => panic!("unexpected event {other:?}"),
    }
    assert_eq!(token.get_pending_balance(STUDENT), amt(50));
    assert_eq!(token.get_treasury_balance_view(), amt(999_950));
    let (t, event) = token.claim_rewards(STUDENT).unwrap();
    match event {
        TokenEvent::RewardClaimed { beneficiary, amount } => {
            assert_eq!(beneficiary, STUDENT);
            assert_eq!(amount, amt(50));
        }
        other => panic!("unexpected event {other:?}"),
    }
    assert_eq!(t.to, STUDENT);
    assert_eq!(t.amount, amt(50));
    assert_eq!(t.nonce, 0);
    assert_eq!(t.token_id, ECT.to_vec());
    assert_eq!(token.get_pending_balance(STUDENT), amt(0));
    assert_eq!(token.get_total_distributed(), amt(50));
    assert_eq!(token.claim_rewards(STUDENT).unwrap_err(), TokenError::NoPendingRewards);
}

#[test]
fn unauthorized_add_reward_rs() {
    let mut token = issued();
    token.mint_rewards(OWNER, amt(100)).unwrap();
    assert_eq!(token.add_reward(STUDENT, STUDENT, amt(10), b"self").unwrap_err(), TokenError::NotDistributor);
    assert_eq!(token.add_reward(STUDENT, STUDENT, amt(u128::MAX), b"big").unwrap_err(), TokenError::NotDistributor);
    assert_eq!(token.get_pending_balance(STUDENT), amt(0));
    assert_eq!(token.get_treasury_balance_view(), amt(100));
}

#[test]
fn rewards_accumulate_before_claim() {
    let mut token = issued();
    token.add_distributor(OWNER, DISTRIBUTOR).unwrap();
    token.mint_rewards(OWNER, amt(100)).unwrap();
    token.add_reward(DISTRIBUTOR, STUDENT, amt(30), b"a").unwrap();
    token.add_reward(DISTRIBUTOR, STUDENT, amt(20), b"b").unwrap();
    token.add_reward(DISTRIBUTOR, OTHER, amt(7), b"c").unwrap();
    assert_eq!(token.get_pending_balance(STUDENT), amt(50));
    assert_eq!(token.claim_rewards(STUDENT).unwrap().0.amount, amt(50));
    assert_eq!(token.get_pending_balance(OTHER), amt(7));
    assert_eq!(token.get_treasury_balance_view(), amt(43));
}

#[test]
fn add_reward_checks_amount_and_treasury() {
    let mut token = issued();
    token.add_distributor(OWNER, DISTRIBUTOR).unwrap();
    token.mint_rewards(OWNER, amt(10)).unwrap();
    assert_eq!(token.add_reward(DISTRIBUTOR, STUDENT, amt(0), b"").unwrap_err(), TokenError::ZeroAmount);
    assert_eq!(token.add_reward(DISTRIBUTOR, STUDENT, amt(11), b"").unwrap_err(), TokenError::InsufficientTreasury);
    assert!(token.add_reward(DISTRIBUTOR, STUDENT, amt(10), b"").is_ok());
    assert_eq!(token.get_treasury_balance_view(), amt(0));
}

#[test]
fn issuance_states() {
    let mut token = EctToken::init(OWNER);
    assert_eq!(token.mint_rewards(OWNER, amt(5)).unwrap_err(), TokenError::TokenNotIssued);
    assert_eq!(token.set_local_roles(OWNER).unwrap_err(), TokenError::TokenNotIssued);
    assert_eq!(
        token.issue_token(STUDENT, 1, b"T".to_vec(), b"T".to_vec(), 18, 0).unwrap_err(),
        TokenError::OnlyOwner
    );
    let req = token.issue_token(OWNER, 7, b"EduChainToken".to_vec(), b"ECT".to_vec(), 18, 900).unwrap();
    assert_eq!(req.issue_cost, 7);
    assert_eq!(req.token_name, b"EduChainToken".to_vec());
    assert_eq!(req.token_ticker, b"ECT".to_vec());
    assert_eq!(req.num_decimals, 18);
    assert_eq!(req.initial_supply, 900);
    assert_eq!(
        token.issue_token(OWNER, 7, b"X".to_vec(), b"X".to_vec(), 18, 0).unwrap_err(),
        TokenError::IssuePending
    );
    assert_eq!(token.mint_rewards(OWNER, amt(5)).unwrap_err(), TokenError::InvalidTokenId);
    assert_eq!(token.mint_rewards(OWNER, amt(0)).unwrap_err(), TokenError::ZeroAmount);
    assert_eq!(token.set_local_roles(OWNER).unwrap_err(), TokenError::InvalidTokenId);
    let refund = token.issue_callback(IssueOutcome::Failed(7)).unwrap();
    assert_eq!(refund.to, OWNER);
    assert_eq!(refund.amount, 7);
    assert!(token.get_token_id().is_none());
    assert!(token.issue_token(OWNER, 7, b"E".to_vec(), b"E".to_vec(), 18, 0).is_ok());
    assert!(token.issue_callback(IssueOutcome::Issued(ECT.to_vec())).is_none());
    assert_eq!(token.get_token_id(), Some(ECT.to_vec()));
    assert_eq!(token.set_local_roles(OWNER), Ok(ECT.to_vec()));
    assert_eq!(
        token.issue_token(OWNER, 7, b"X".to_vec(), b"X".to_vec(), 18, 0).unwrap_err(),
        TokenError::TokenAlreadySet
    );
}

#[test]
fn failed_issue_without_refund() {
    let mut token = EctToken::init(OWNER);
    token.issue_token(OWNER, 0, b"E".to_vec(), b"E".to_vec(), 18, 0).unwrap();
    assert!(token.issue_callback(IssueOutcome::Failed(0)).is_none());
}

#[test]
fn pay_p2p_from_treasury() {
    let mut token = issued();
    token.add_distributor(OWNER, DISTRIBUTOR).unwrap();
    token.mint_rewards(OWNER, amt(40)).unwrap();
    assert_eq!(token.pay_p2p(STUDENT, OTHER, amt(5)).unwrap_err(), TokenError::NotDistributor);
    assert_eq!(token.pay_p2p(DISTRIBUTOR, OTHER, amt(41)).unwrap_err(), TokenError::InsufficientTreasury);
    let (t, event) = token.pay_p2p(DISTRIBUTOR, OTHER, amt(15)).unwrap();
    match event {
        TokenEvent::TransferMade { receiver, amount } => {
            assert_eq!(receiver, OTHER);
            assert_eq!(amount, amt(15));
        }
        other => panic!("unexpected event {other:?}"),
    }
    assert_eq!(t.to, OTHER);
    assert_eq!(t.amount, amt(15));
    assert_eq!(t.token_id, ECT.to_vec());
    assert_eq!(token.get_treasury_balance_view(), amt(25));
    let (t, _) = token.pay_p2p(OWNER, STUDENT, amt(5)).unwrap();
    assert_eq!(t.to, STUDENT);
    assert_eq!(token.get_treasury_balance_view(), amt(20));
}

#[test]
fn distributor_management_is_owner_only() {
    let mut token = EctToken::init(OWNER);
    assert_eq!(token.add_distributor(STUDENT, DISTRIBUTOR), Err(TokenError::OnlyOwner));
    token.add_distributor(OWNER, DISTRIBUTOR).unwrap();
    assert!(token.is_distributor(DISTRIBUTOR));
    assert_eq!(token.remove_distributor(STUDENT, DISTRIBUTOR), Err(TokenError::OnlyOwner));
    token.remove_distributor(OWNER, DISTRIBUTOR).unwrap();
    assert!(!token.is_distributor(DISTRIBUTOR));
}

#[test]
fn amounts_grow_past_u128() {
    let mut token = issued();
    token.add_distributor(OWNER, DISTRIBUTOR).unwrap();
    token.mint_rewards(OWNER, amt(u128::MAX)).unwrap();
    token.mint_rewards(OWNER, amt(u128::MAX)).unwrap();
    let total = amt(u128::MAX) + amt(u128::MAX);
    assert_eq!(token.get_treasury_balance_view(), total.clone());
    token.add_reward(DISTRIBUTOR, STUDENT, total.clone(), b"all").unwrap();
    assert_eq!(token.get_pending_balance(STUDENT), total.clone());
    assert_eq!(token.get_treasury_balance_view(), amt(0));
    let (t, _) = token.claim_rewards(STUDENT).unwrap();
    assert_eq!(t.amount, total.clone());
    assert_eq!(token.get_total_distributed(), total);
}
