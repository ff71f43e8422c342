use educhain::chain::Payment;
use educhain::escrow::{EctEscrow, EscrowError, EscrowEvent, SessionStatus};

const OWNER: [u8; 32] = [9u8; 32];
const STUDENT: [u8; 32] = [1u8; 32];
const MENTOR: [u8; 32] = [2u8; 32];
const STRANGER: [u8; 32] = [3u8; 32];
const ECT: &[u8] = b"ECT-a1b2c3";

fn ect(amount: u128) -> Vec<Payment> {
    vec![Payment { token_id: ECT.to_vec(), nonce: 0, amount }]
}

fn configured() -> EctEscrow {
    let mut escrow = EctEscrow::init(OWNER);
    escrow.set_ect_token_id(OWNER, ECT.to_vec()).unwrap();
    escrow
}

#[test]
fn ect_escrow_scenario_rs_test_deploy_rs() {
    let escrow = EctEscrow::init(OWNER);
    assert_eq!(escrow.get_next_session_id(), 0);
    assert!(escrow.get_session(0).is_none());
    assert!(escrow.ect_token_id().is_empty());
}

#[test]
fn session_create_confirm_rs() {
    let mut escrow = configured();
    let (id, event) = escrow.create_session(STUDENT, 1_000, &ect(500), MENTOR, 1_000 + 3_600).unwrap();
    assert_eq!(id, 0);
    assert!(matches!(
        event,
        EscrowEvent::SessionCreated { id: 0, student: STUDENT, mentor: MENTOR, deadline: 4_600, amount: 500 }
    ));
    assert_eq!(escrow.get_next_session_id(), 1);
    let s = escrow.get_session(0).unwrap();
    assert_eq!(s.student, STUDENT);
    assert_eq!(s.mentor, MENTOR);
    assert_eq!(s.amount, 500);
    assert_eq!(s.deadline, 4_600);
    assert_eq!(s.created_at, 1_000);
    assert_eq!(s.status, SessionStatus::Open);

    assert_eq!(escrow.confirm_completion(MENTOR, 0).unwrap_err(), EscrowError::NotStudent);
    let (t, event) = escrow.confirm_completion(STUDENT, 0).unwrap();
    assert!(matches!(event, EscrowEvent::SessionCompleted { id: 0, student: STUDENT, mentor: MENTOR }));
    assert_eq!(t.to, MENTOR);
    assert_eq!(t.amount, 500);
    assert_eq!(t.nonce, 0);
    assert_eq!(t.token_id, ECT.to_vec());
    assert_eq!(escrow.get_session(0).unwrap().status, SessionStatus::Completed);
    assert_eq!(escrow.confirm_completion(STUDENT, 0).unwrap_err(), EscrowError::SessionNotOpen);
}

#[test]
fn session_dispute_resolve_rs() {
    let mut escrow = configured();
    escrow.create_session(STUDENT, 10, &ect(80), MENTOR, 10_000).unwrap();
    assert_eq!(escrow.dispute_session(STRANGER, 0, b"?").unwrap_err(), EscrowError::NotParty);
    match escrow.dispute_session(MENTOR, 0, b"no show").unwrap() {
        EscrowEvent::SessionDisputed { id, initiator, reason } => {
            assert_eq!(id, 0);
            assert_eq!(initiator, MENTOR);
            assert_eq!(reason, b"no show".to_vec());
        }
        other => panic!("unexpected event {other:?}"),
    }
    assert_eq!(escrow.get_session(0).unwrap().status, SessionStatus::Disputed);
    assert_eq!(escrow.confirm_completion(STUDENT, 0).unwrap_err(), EscrowError::SessionNotOpen);
    assert_eq!(escrow.resolve_dispute(STUDENT, 0, STUDENT).unwrap_err(), EscrowError::OnlyOwner);
    assert_eq!(escrow.resolve_dispute(OWNER, 0, STRANGER).unwrap_err(), EscrowError::InvalidWinner);
    let (t, event) = escrow.resolve_dispute(OWNER, 0, STUDENT).unwrap();
    assert!(matches!(event, EscrowEvent::SessionResolved { id: 0, winner: STUDENT }));
    assert_eq!(t.to, STUDENT);
    assert_eq!(t.amount, 80);
    assert_eq!(t.token_id, ECT.to_vec());
    assert_eq!(escrow.get_session(0).unwrap().status, SessionStatus::Completed);
    assert_eq!(escrow.resolve_dispute(OWNER, 0, STUDENT).unwrap_err(), EscrowError::SessionNotDisputed);
}

#[test]
fn create_session_errors_in_order() {
    let mut escrow = configured();
    assert_eq!(
        escrow.create_session(STUDENT, 100, &ect(5), STUDENT, 1_000).unwrap_err(),
        EscrowError::SameStudentAndMentor
    );
    assert_eq!(
        escrow.create_session(STUDENT, 100, &ect(5), MENTOR, 160).unwrap_err(),
        EscrowError::DeadlineTooSoon
    );
    assert_eq!(escrow.create_session(STUDENT, 100, &ect(5), MENTOR, 161).unwrap().0, 0);
    assert_eq!(
        escrow.create_session(STUDENT, 100, &[], MENTOR, 1_000).unwrap_err(),
        EscrowError::IncorrectNumberOfTransfers
    );
    let two = vec![ect(1)[0].clone(), ect(2)[0].clone()];
    assert_eq!(
        escrow.create_session(STUDENT, 100, &two, MENTOR, 1_000).unwrap_err(),
        EscrowError::IncorrectNumberOfTransfers
    );
    let other = vec![Payment { token_id: b"USDC-123456".to_vec(), nonce: 0, amount: 5 }];
    assert_eq!(
        escrow.create_session(STUDENT, 100, &other, MENTOR, 1_000).unwrap_err(),
        EscrowError::WrongPaymentToken
    );
    assert_eq!(escrow.create_session(STUDENT, 100, &ect(0), MENTOR, 1_000).unwrap_err(), EscrowError::ZeroAmount);
    assert_eq!(escrow.get_next_session_id(), 1);
}

#[test]
fn set_token_id_checks_owner_and_format() {
    let mut escrow = EctEscrow::init(OWNER);
    assert_eq!(escrow.set_ect_token_id(STUDENT, ECT.to_vec()), Err(EscrowError::OnlyOwner));
    assert_eq!(
        escrow.set_ect_token_id(OWNER, b"ect-a1b2c3".to_vec()),
        Err(EscrowError::InvalidTokenIdentifier)
    );
    assert_eq!(
        escrow.set_ect_token_id(OWNER, b"ECT_a1b2c3".to_vec()),
        Err(EscrowError::InvalidTokenIdentifier)
    );
    assert!(escrow.ect_token_id().is_empty());
    assert_eq!(escrow.set_ect_token_id(OWNER, ECT.to_vec()), Ok(()));
    assert_eq!(escrow.ect_token_id(), ECT);
}

#[test]
fn expire_refunds_student_after_deadline() {
    let mut escrow = configured();
    escrow.create_session(STUDENT, 0, &ect(42), MENTOR, 1_000).unwrap();
    assert_eq!(escrow.expire_session(1_000, 0).unwrap_err(), EscrowError::DeadlineNotReached);
    let (t, event) = escrow.expire_session(1_001, 0).unwrap();
    assert!(matches!(event, EscrowEvent::SessionExpired { id: 0, released_to: STUDENT }));
    assert_eq!(t.to, STUDENT);
    assert_eq!(t.amount, 42);
    assert_eq!(escrow.get_session(0).unwrap().status, SessionStatus::Expired);
    assert_eq!(escrow.expire_session(5_000, 0).unwrap_err(), EscrowError::SessionNotOpen);
    assert_eq!(escrow.dispute_session(STUDENT, 0, b"late").unwrap_err(), EscrowError::SessionNotOpen);
}

#[test]
fn missing_session_is_not_found() {
    let mut escrow = configured();
    assert_eq!(escrow.confirm_completion(STUDENT, 3).unwrap_err(), EscrowError::SessionNotFound);
    assert_eq!(escrow.dispute_session(STUDENT, 3, b"").unwrap_err(), EscrowError::SessionNotFound);
    assert_eq!(escrow.expire_session(9, 3).unwrap_err(), EscrowError::SessionNotFound);
    assert_eq!(escrow.resolve_dispute(OWNER, 3, STUDENT).unwrap_err(), EscrowError::SessionNotFound);
}
