use educhain::certificate::{decode_attributes, encode_attributes, AchievementType, CertificateAttributes};
use educhain::hashing::sha256_bytes;
use educhain::nft::{
    CertificateRequest, CertificateStatus, EduChainNft, NftError, NftEvent, BATCH_LIMIT,
};
use educhain::token::IssueOutcome;

const OWNER: [u8; 32] = [9u8; 32];
const ISSUER: [u8; 32] = [7u8; 32];
const STUDENT: [u8; 32] = [1u8; 32];
const OTHER: [u8; 32] = [2u8; 32];
const COLLECTION: &[u8] = b"EDUC-1a2b3c";

fn attrs(course: &str) -> CertificateAttributes {
    CertificateAttributes {
        certificate_version: 1,
        name: b"Ana Pop".to_vec(),
        program_name: b"Blockchain 101".to_vec(),
        grade: 95,
        credit_points: 6,
        creation_timestamp: 1_700_000_000,
        expiration_timestamp: 0,
        course_id: course.as_bytes().to_vec(),
        institution_name: b"UPB".to_vec(),
        instructor_name: b"I. Ionescu".to_vec(),
        verification_url: b"https://edu.example/v/1".to_vec(),
        eqf_level: Some(6),
        ects_credits: Some(5),
        language: Some(b"ro".to_vec()),
        achievement_type: Some(AchievementType::Course),
        content_hash: Some([0xab; 32]),
    }
}

fn small_attrs() -> CertificateAttributes {
    CertificateAttributes {
        certificate_version: 1,
        name: b"A".to_vec(),
        program_name: Vec::new(),
        grade: 0x0102,
        credit_points: 3,
        creation_timestamp: 5,
        expiration_timestamp: 0,
        course_id: b"C".to_vec(),
        institution_name: Vec::new(),
        instructor_name: Vec::new(),
        verification_url: Vec::new(),
        eqf_level: None,
        ects_credits: Some(0x0203),
        language: None,
        achievement_type: Some(AchievementType::Diploma),
        content_hash: None,
    }
}

fn ready() -> EduChainNft {
    let mut nft = EduChainNft::init(OWNER);
    nft.issue_token(OWNER, 50_000_000_000_000_000, b"EduCert".to_vec(), b"EDUC".to_vec()).unwrap();
    assert!(nft.issue_callback(IssueOutcome::Issued(COLLECTION.to_vec())).is_none());
    nft.add_issuer(OWNER, ISSUER).unwrap();
    nft
}

#[test]
fn edu_chain_nft_scenario_rs_test_deploy_rs() {
    let nft = EduChainNft::init(OWNER);
    assert!(!nft.is_issuer(OWNER));
    assert_eq!(nft.get_certificate_nonce(b"BC101", STUDENT), 0);
    assert!(nft.get_revocation_reason(1).is_empty());
    assert_eq!(nft.set_local_roles(OWNER).unwrap_err(), NftError::TokenNotIssued);
}

#[test]
fn add_remove_issuer_rs() {
    let mut nft = EduChainNft::init(OWNER);
    assert_eq!(nft.add_issuer(STUDENT, ISSUER).unwrap_err(), NftError::OnlyOwner);
    assert!(matches!(nft.add_issuer(OWNER, ISSUER).unwrap(), NftEvent::IssuerAdded { addr: ISSUER }));
    assert!(nft.is_issuer(ISSUER));
    assert_eq!(nft.remove_issuer(STUDENT, ISSUER).unwrap_err(), NftError::OnlyOwner);
    assert!(matches!(nft.remove_issuer(OWNER, ISSUER).unwrap(), NftEvent::IssuerRemoved { addr: ISSUER }));
    assert!(!nft.is_issuer(ISSUER));
}

#[test]
fn revoke_not_issuer_rs() {
    let mut nft = ready();
    let m = nft.issue_certificate(ISSUER, 100, STUDENT, b"Cert".to_vec(), attrs("BC101")).unwrap().0;
    assert_eq!(nft.revoke_certificate(STUDENT, m.nonce, b"fraud".to_vec()).unwrap_err(), NftError::NotIssuer);
    assert!(nft.get_revocation_reason(m.nonce).is_empty());
    assert_eq!(nft.verify_certificate(m.nonce, 200, &m.attributes), CertificateStatus::Active);
}

#[test]
fn verify_revoked_rs() {
    let mut nft = ready();
    let m = nft.issue_certificate(ISSUER, 100, STUDENT, b"Cert".to_vec(), attrs("BC101")).unwrap().0;
    match nft.revoke_certificate(ISSUER, m.nonce, b"plagiarism".to_vec()).unwrap() {
        NftEvent::CertificateRevoked { nonce, issuer, reason } => {
            assert_eq!(nonce, m.nonce);
            assert_eq!(issuer, ISSUER);
            assert_eq!(reason, b"plagiarism".to_vec());
        }
        other => panic!("unexpected event {other:?}"),
    }
    assert_eq!(nft.verify_certificate(m.nonce, 200, &m.attributes), CertificateStatus::Revoked);
    assert_eq!(nft.get_revocation_reason(m.nonce), b"plagiarism".to_vec());
    assert_eq!(
        nft.revoke_certificate(ISSUER, m.nonce, b"again".to_vec()).unwrap_err(),
        NftError::AlreadyRevoked
    );
}

#[test]
fn verify_unknown_rs() {
    let nft = ready();
    assert_eq!(nft.verify_certificate(0, 10, &[]), CertificateStatus::Unknown);
    assert_eq!(nft.verify_certificate(42, 10, &[]), CertificateStatus::Unknown);
    assert_eq!(nft.verify_certificate(42, 10, &[1, 2, 3]), CertificateStatus::Unknown);
}

#[test]
fn issue_certificate_mints_and_records() {
    let mut nft = ready();
    let a = attrs("BC101");
    let expected = encode_attributes(&a);
    let (m, event) = nft.issue_certificate(ISSUER, 100, STUDENT, b"Cert #1".to_vec(), a).unwrap();
    match event {
        NftEvent::CertificateIssued { student, course_id, nonce, issuer, grade, timestamp } => {
            assert_eq!(student, STUDENT);
            assert_eq!(course_id, b"BC101".to_vec());
            assert_eq!(nonce, 1);
            assert_eq!(issuer, ISSUER);
            assert_eq!(grade, 95);
            assert_eq!(timestamp, 100);
        }
        other => panic!("unexpected event {other:?}"),
    }
    assert_eq!(m.nonce, 1);
    assert_eq!(m.token_id, COLLECTION.to_vec());
    assert_eq!(m.token_name, b"Cert #1".to_vec());
    assert_eq!(m.student, STUDENT);
    assert_eq!(m.attributes, expected);
    assert_eq!(m.attributes_hash, sha256_bytes(&expected));
    assert_eq!(nft.get_certificate_nonce(b"BC101", STUDENT), 1);
    let m2 = nft.issue_certificate(ISSUER, 100, OTHER, b"Cert #2".to_vec(), attrs("BC101")).unwrap().0;
    assert_eq!(m2.nonce, 2);
    assert_eq!(
        nft.issue_certificate(ISSUER, 100, STUDENT, b"dup".to_vec(), attrs("BC101")).unwrap_err(),
        NftError::AlreadyIssued
    );
}

#[test]
fn issue_certificate_checks_in_order() {
    let mut nft = EduChainNft::init(OWNER);
    nft.add_issuer(OWNER, ISSUER).unwrap();
    assert_eq!(
        nft.issue_certificate(STUDENT, 0, STUDENT, Vec::new(), attrs("X")).unwrap_err(),
        NftError::NotIssuer
    );
    assert_eq!(
        nft.issue_certificate(ISSUER, 0, STUDENT, Vec::new(), attrs("X")).unwrap_err(),
        NftError::TokenNotIssued
    );
    let mut nft = ready();
    let mut a = attrs("X");
    a.grade = 101;
    assert_eq!(nft.issue_certificate(ISSUER, 0, STUDENT, Vec::new(), a).unwrap_err(), NftError::InvalidGrade);
    let mut a = attrs("X");
    a.expiration_timestamp = 50;
    assert_eq!(nft.issue_certificate(ISSUER, 50, STUDENT, Vec::new(), a).unwrap_err(), NftError::InvalidExpiration);
    let mut a = attrs("X");
    a.eqf_level = Some(9);
    assert_eq!(nft.issue_certificate(ISSUER, 0, STUDENT, Vec::new(), a).unwrap_err(), NftError::InvalidEqfLevel);
    let mut a = attrs("X");
    a.eqf_level = Some(0);
    assert_eq!(nft.issue_certificate(ISSUER, 0, STUDENT, Vec::new(), a).unwrap_err(), NftError::InvalidEqfLevel);
    let mut a = attrs("X");
    a.certificate_version = 2;
    assert_eq!(nft.issue_certificate(ISSUER, 0, STUDENT, Vec::new(), a).unwrap_err(), NftError::UnsupportedVersion);
    assert_eq!(nft.get_certificate_nonce(b"X", STUDENT), 0);
}

#[test]
fn expiring_certificate_verifies_expired_later() {
    let mut nft = ready();
    let mut a = attrs("EXP");
    a.expiration_timestamp = 1_000;
    let m = nft.issue_certificate(ISSUER, 500, STUDENT, Vec::new(), a).unwrap().0;
    assert_eq!(nft.verify_certificate(m.nonce, 1_000, &m.attributes), CertificateStatus::Active);
    assert_eq!(nft.verify_certificate(m.nonce, 1_001, &m.attributes), CertificateStatus::Expired);
}

#[test]
fn revoke_nonce_zero_is_invalid() {
    let mut nft = ready();
    assert_eq!(nft.revoke_certificate(ISSUER, 0, Vec::new()).unwrap_err(), NftError::InvalidNonce);
}

#[test]
fn batch_skips_existing_and_mints_new() {
    let mut nft = ready();
    nft.issue_certificate(ISSUER, 0, STUDENT, Vec::new(), attrs("A")).unwrap().0;
    let requests = vec![
        CertificateRequest { student: STUDENT, token_name: b"a".to_vec(), attrs: attrs("A") },
        CertificateRequest { student: STUDENT, token_name: b"b".to_vec(), attrs: attrs("B") },
        CertificateRequest { student: STUDENT, token_name: b"b2".to_vec(), attrs: attrs("B") },
        CertificateRequest { student: OTHER, token_name: b"c".to_vec(), attrs: attrs("A") },
    ];
    let items = nft.issue_certificate_batch(ISSUER, 0, &requests).unwrap();
    let nonces: Vec<u64> = items.iter().map(|i| i.nonce).collect();
    assert_eq!(nonces, vec![1, 2, 2, 3]);
    assert!(items[0].minted.is_none());
    assert_eq!(items[1].minted.as_ref().unwrap().token_name, b"b".to_vec());
    assert!(items[2].minted.is_none());
    assert!(items[0].event.is_none() && items[2].event.is_none());
    assert!(matches!(
        items[3].event,
        Some(NftEvent::CertificateIssued { student: OTHER, nonce: 3, issuer: ISSUER, timestamp: 0, .. })
    ));
    assert_eq!(items[3].minted.as_ref().unwrap().student, OTHER);
    assert_eq!(nft.get_certificate_nonce(b"A", OTHER), 3);
}

#[test]
fn batch_failure_changes_nothing() {
    let mut nft = ready();
    let mut bad = attrs("Z");
    bad.grade = 200;
    let requests = vec![
        CertificateRequest { student: STUDENT, token_name: Vec::new(), attrs: attrs("Y") },
        CertificateRequest { student: STUDENT, token_name: Vec::new(), attrs: bad },
    ];
    assert_eq!(nft.issue_certificate_batch(ISSUER, 0, &requests).err(), Some(NftError::InvalidGrade));
    assert_eq!(nft.get_certificate_nonce(b"Y", STUDENT), 0);
    let m = nft.issue_certificate(ISSUER, 0, STUDENT, Vec::new(), attrs("Y")).unwrap().0;
    assert_eq!(m.nonce, 1);
}

#[test]
fn batch_limit_and_access() {
    let mut nft = ready();
    let requests: Vec<CertificateRequest> = (0..(BATCH_LIMIT + 1))
        .map(|i| CertificateRequest {
            student: STUDENT,
            token_name: Vec::new(),
            attrs: attrs(&format!("C{i}")),
        })
        .collect();
    assert_eq!(nft.issue_certificate_batch(ISSUER, 0, &requests).err(), Some(NftError::BatchTooLarge));
    assert_eq!(nft.issue_certificate_batch(OTHER, 0, &Vec::new()).err(), Some(NftError::NotIssuer));
    assert_eq!(nft.issue_certificate_batch(ISSUER, 0, &Vec::new()).unwrap().len(), 0);
}

#[test]
fn attributes_round_trip() {
    for a in [attrs("BC101"), small_attrs()] {
        let bytes = encode_attributes(&a);
        let back = decode_attributes(&bytes).expect("stored form must decode");
        assert_eq!(encode_attributes(&back), bytes);
        assert_eq!(back.course_id, a.course_id);
        assert_eq!(back.grade, a.grade);
        assert_eq!(back.eqf_level, a.eqf_level);
        assert_eq!(back.language, a.language);
        assert_eq!(back.content_hash, a.content_hash);
        assert_eq!(back.achievement_type, a.achievement_type);
    }
}

#[test]
fn attributes_stored_form_exact() {
    let bytes = encode_attributes(&small_attrs());
    let mut expected: Vec<u8> = vec![1];
    expected.extend([0, 0, 0, 1, b'A']);
    expected.extend([0, 0, 0, 0]);
    expected.extend([1, 2]);
    expected.extend([0, 3]);
    expected.extend([0, 0, 0, 0, 0, 0, 0, 5]);
    expected.extend([0, 0, 0, 0, 0, 0, 0, 0]);
    expected.extend([0, 0, 0, 1, b'C']);
    expected.extend([0, 0, 0, 0]);
    expected.extend([0, 0, 0, 0]);
    expected.extend([0, 0, 0, 0]);
    expected.push(0);
    expected.extend([1, 2, 3]);
    expected.push(0);
    expected.extend([1, 3]);
    expected.push(0);
    assert_eq!(bytes, expected);
}

#[test]
fn malformed_attributes_do_not_decode() {
    let bytes = encode_attributes(&small_attrs());
    assert!(decode_attributes(&bytes[..bytes.len() - 1]).is_none());
    let mut extra = bytes.clone();
    extra.push(0);
    assert!(decode_attributes(&extra).is_none());
    let mut bad_tag = bytes.clone();
    let n = bad_tag.len();
    bad_tag[n - 3] = 7;
    assert!(decode_attributes(&bad_tag).is_none());
    let nft = ready();
    assert!(nft.get_certificate_attributes(&[]).is_none());
    assert_eq!(nft.get_certificate_attributes(&bytes).unwrap().course_id, b"C".to_vec());
}

#[test]
fn issue_token_and_roles() {
    let mut nft = EduChainNft::init(OWNER);
    assert_eq!(nft.issue_token(STUDENT, 1, Vec::new(), Vec::new()).unwrap_err(), NftError::OnlyOwner);
    let req = nft.issue_token(OWNER, 5, b"EduCert".to_vec(), b"EDUC".to_vec()).unwrap();
    assert_eq!(req.issue_cost, 5);
    assert_eq!(req.token_name, b"EduCert".to_vec());
    assert_eq!(req.token_ticker, b"EDUC".to_vec());
    let refund = nft.issue_callback(IssueOutcome::Failed(5)).unwrap();
    assert_eq!(refund.amount, 5);
    assert_eq!(refund.to, OWNER);
    nft.issue_callback(IssueOutcome::Issued(COLLECTION.to_vec()));
    assert_eq!(nft.issue_token(OWNER, 5, Vec::new(), Vec::new()).unwrap_err(), NftError::TokenAlreadyIssued);
    assert_eq!(nft.set_local_roles(STUDENT).unwrap_err(), NftError::OnlyOwner);
    assert_eq!(nft.set_local_roles(OWNER), Ok(COLLECTION.to_vec()));
}
