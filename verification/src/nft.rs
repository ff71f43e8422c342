use vstd::prelude::*;

use crate::bytes::{array32_eq, bytes_eq, copy_bytes, Address};
use crate::certificate::{
    decode_attributes, decoded, encodable, encode_attributes, encode_attributes_spec,
    law_attributes_round_trip, AttributesView, CertificateAttributes,
};
use crate::hashing::{sha256_bytes, sha256_spec};
use crate::keylist::{KeyEq, KeyList};
use crate::token::{EgldRefund, IssueOutcome};

verus! {

/// The only certificate schema version accepted at issuance.
pub const CURRENT_CERT_VERSION: u8 = 1;

/// Amount minted of each certificate NFT.
pub const NFT_AMOUNT: u32 = 1;

/// Most certificates one batch may issue.
pub const BATCH_LIMIT: usize = 50;

/// What a verifier learns of a certificate.
#[derive(Clone, Copy, Debug, PartialEq, Eq, Structural)]
pub enum CertificateStatus {
    Unknown,
    Active,
    Revoked,
    Expired,
}

/// Why a certificate-contract call is refused (the transaction reverts and nothing
/// changes).
#[derive(Clone, Copy, Debug, PartialEq, Eq, Structural)]
pub enum NftError {
    /// The endpoint is reserved to the contract owner.
    OnlyOwner,
    /// "Token already issued"
    TokenAlreadyIssued,
    /// "NFT token not yet issued"
    TokenNotIssued,
    /// "Caller is not an authorized issuer"
    NotIssuer,
    /// "Grade must be 0..=100"
    InvalidGrade,
    /// "Expiration must be in the future or zero"
    InvalidExpiration,
    /// "EQF level must be 1..=8"
    InvalidEqfLevel,
    /// "Unsupported certificate version"
    UnsupportedVersion,
    /// "Certificate already issued for this student/course"
    AlreadyIssued,
    /// "Batch exceeds maximum of 50 certificates"
    BatchTooLarge,
    /// "Invalid nonce"
    InvalidNonce,
    /// "Certificate already revoked"
    AlreadyRevoked,
}

/// A request to the system contract to issue the non-fungible certificate collection
/// (can freeze, wipe, pause, transfer the create role and add special roles; cannot
/// change owner nor upgrade).
#[derive(Clone, Debug)]
pub struct NftIssue {
    pub issue_cost: u128,
    pub token_name: Vec<u8>,
    pub token_ticker: Vec<u8>,
}

/// A certificate NFT to create and send: one unit of `token_id` at `nonce`, named
/// `token_name`, no royalties and no URIs, carrying `attributes` (stored form) and
/// their SHA-256 `attributes_hash`, transferred to `student`.
#[derive(Clone, Debug)]
pub struct MintedCertificate {
    pub nonce: u64,
    pub token_id: Vec<u8>,
    pub token_name: Vec<u8>,
    pub student: Address,
    pub attributes: Vec<u8>,
    pub attributes_hash: [u8; 32],
}

/// One entry of a batch issuance.
pub struct CertificateRequest {
    pub student: Address,
    pub token_name: Vec<u8>,
    pub attrs: CertificateAttributes,
}

/// What the certificate contract logs on the chain when a call succeeds.
#[derive(Clone, Debug)]
pub enum NftEvent {
    /// `certificate_issued`
    CertificateIssued {
        student: Address,
        course_id: Vec<u8>,
        nonce: u64,
        issuer: Address,
        grade: u16,
        timestamp: u64,
    },
    /// `certificate_revoked`
    CertificateRevoked { nonce: u64, issuer: Address, reason: Vec<u8> },
    /// `issuer_added`
    IssuerAdded { addr: Address },
    /// `issuer_removed`
    IssuerRemoved { addr: Address },
}

/// `ev` is the `certificate_issued` event of the certificate `attrs` issued by
/// `issuer` to `student` under `nonce` at `now`.
pub open spec fn issued_event(
    ev: NftEvent,
    student: Address,
    attrs: AttributesView,
    nonce: u64,
    issuer: Address,
    now: u64,
) -> bool {
    ev matches NftEvent::CertificateIssued { student: s, course_id: c, nonce: n, issuer: i, grade: g, timestamp: t }
        && s == student && c@ == attrs.course_id && n == nonce && i == issuer && g == attrs.grade
        && t == now
}

/// What a batch issuance did for one request: the certificate's nonce, and the NFT
/// minted for it, unless the certificate existed already.
pub struct BatchItem {
    pub nonce: u64,
    pub minted: Option<MintedCertificate>,
    /// The `certificate_issued` event, for a certificate minted by the batch.
    pub event: Option<NftEvent>,
}

/// The key under which a certificate is recorded: course and student.
pub struct CertKey {
    pub course_id: Vec<u8>,
    pub student: Address,
}

impl View for CertKey {
    type V = (Seq<u8>, Seq<u8>);

    open spec fn view(&self) -> (Seq<u8>, Seq<u8>) {
        (self.course_id@, self.student@)
    }
}

impl KeyEq for CertKey {
    fn key_eq(&self, other: &Self) -> (r: bool) {
        let c = bytes_eq(self.course_id.as_slice(), other.course_id.as_slice());
        let s = array32_eq(&self.student, &other.student);
        c && s
    }
}

/// `m` is the NFT minted for `attrs`, sent to `student` under `nonce`.
pub open spec fn minted_for(
    m: MintedCertificate,
    nonce: u64,
    token_id: Seq<u8>,
    student: Address,
    token_name: Seq<u8>,
    attrs: AttributesView,
) -> bool {
    &&& m.nonce == nonce
    &&& m.token_id@ == token_id
    &&& m.token_name@ == token_name
    &&& m.student == student
    &&& m.attributes@ == encode_attributes_spec(attrs)
    &&& m.attributes_hash@ == sha256_spec(encode_attributes_spec(attrs))
}

/// The EQF level, when given, is outside 1..=8.
pub open spec fn bad_eqf(level: Option<u8>) -> bool {
    level matches Some(e) && (e < 1 || e > 8)
}

/// The nonce recorded under `key`, 0 where none is.
pub open spec fn nonce_of(certs: Map<(Seq<u8>, Seq<u8>), u64>, key: (Seq<u8>, Seq<u8>)) -> u64 {
    if certs.contains_key(key) {
        certs[key]
    } else {
        0
    }
}

/// The first check of `issueCertificate` on the attributes and the record that fails.
pub open spec fn issue_error(
    certs: Map<(Seq<u8>, Seq<u8>), u64>,
    now: u64,
    student: Address,
    a: AttributesView,
) -> Option<NftError> {
    if a.grade > 100 {
        Some(NftError::InvalidGrade)
    } else if a.expiration_timestamp != 0 && a.expiration_timestamp <= now {
        Some(NftError::InvalidExpiration)
    } else if bad_eqf(a.eqf_level) {
        Some(NftError::InvalidEqfLevel)
    } else if a.certificate_version != CURRENT_CERT_VERSION {
        Some(NftError::UnsupportedVersion)
    } else if certs.contains_key((a.course_id, student@)) {
        Some(NftError::AlreadyIssued)
    } else {
        None
    }
}

/// One step of a batch: skip a certificate that exists (giving its nonce), otherwise
/// check the grade and EQF level and mint under the next nonce.
pub open spec fn batch_step(
    certs: Map<(Seq<u8>, Seq<u8>), u64>,
    last: u64,
    req: CertificateRequest,
) -> Result<(Map<(Seq<u8>, Seq<u8>), u64>, u64, (u64, bool)), NftError> {
    let key = (req.attrs.course_id@, req.student@);
    let existing = nonce_of(certs, key);
    if existing != 0 {
        Ok((certs, last, (existing, false)))
    } else if req.attrs.grade > 100 {
        Err(NftError::InvalidGrade)
    } else if bad_eqf(req.attrs.eqf_level) {
        Err(NftError::InvalidEqfLevel)
    } else {
        Ok((certs.insert(key, (last + 1) as u64), (last + 1) as u64, ((last + 1) as u64, true)))
    }
}

/// A batch run over `reqs` in order: the records and last nonce after it, and for each
/// request its nonce and whether it was minted; or the first error.
pub open spec fn batch_run(
    certs: Map<(Seq<u8>, Seq<u8>), u64>,
    last: u64,
    reqs: Seq<CertificateRequest>,
) -> Result<(Map<(Seq<u8>, Seq<u8>), u64>, u64, Seq<(u64, bool)>), NftError>
    decreases reqs.len(),
{
    if reqs.len() == 0 {
        Ok((certs, last, Seq::empty()))
    } else {
        match batch_run(certs, last, reqs.drop_last()) {
            Err(e) => Err(e),
            Ok((c, l, outs)) => match batch_step(c, l, reqs.last()) {
                Err(e) => Err(e),
                Ok((c2, l2, o)) => Ok((c2, l2, outs.push(o))),
            },
        }
    }
}

proof fn lemma_batch_run_prefix_error(
    certs: Map<(Seq<u8>, Seq<u8>), u64>,
    last: u64,
    reqs: Seq<CertificateRequest>,
    j: int,
)
    requires
        0 <= j <= reqs.len(),
        batch_run(certs, last, reqs.take(j)) is Err,
    ensures
        batch_run(certs, last, reqs) == batch_run(certs, last, reqs.take(j)),
    decreases reqs.len(),
{
    if j < reqs.len() {
        assert(reqs.drop_last().take(j) =~= reqs.take(j));
        lemma_batch_run_prefix_error(certs, last, reqs.drop_last(), j);
    } else {
        assert(reqs.take(j) =~= reqs);
    }
}

/// Status of a certificate carrying attributes `a`, checked at `now`.
pub open spec fn status_of(a: AttributesView, now: u64) -> CertificateStatus {
    if a.expiration_timestamp > 0 && now > a.expiration_timestamp {
        CertificateStatus::Expired
    } else {
        CertificateStatus::Active
    }
}

/// What `verifyCertificate` reports for `nonce` at `now`, the NFT carrying `stored`.
pub open spec fn verify_status(revoked: Set<u64>, nonce: u64, now: u64, stored: Seq<u8>) -> CertificateStatus {
    if nonce == 0 {
        CertificateStatus::Unknown
    } else if revoked.contains(nonce) {
        CertificateStatus::Revoked
    } else {
        match decoded(stored) {
            Some(a) => status_of(a, now),
            None => CertificateStatus::Unknown,
        }
    }
}

/// Soulbound certificate NFTs: authorized issuers mint one certificate per student and
/// course, sent to the student; issuers may (softly) revoke certificates; anyone may
/// check a certificate's status.
///
/// The collection's NFTs are created by this contract alone (it keeps the create role),
/// so the chain gives each NFT it creates the nonce after the last one: 1, 2, 3, and so
/// on. The nonces below are computed on that ground.
pub struct EduChainNft {
    owner: Address,
    nft_token_id: Option<Vec<u8>>,
    issuers: KeyList<Address, ()>,
    revoked: KeyList<u64, Vec<u8>>,
    certificate_of: KeyList<CertKey, u64>,
    last_nonce: u64,
    issue_payer: Address,
}

impl EduChainNft {
    pub closed spec fn owner_spec(&self) -> Address {
        self.owner
    }

    /// The collection's identifier, once issued.
    pub closed spec fn token_spec(&self) -> Option<Seq<u8>> {
        match self.nft_token_id {
            Some(t) => Some(t@),
            None => None,
        }
    }

    pub closed spec fn issuers_spec(&self) -> Set<Seq<u8>> {
        self.issuers@.dom()
    }

    /// Revoked certificate nonces, with the reason given.
    pub closed spec fn revoked_spec(&self) -> Map<u64, Vec<u8>> {
        self.revoked@
    }

    /// The nonce of the certificate of each (course, student).
    pub closed spec fn certificates_spec(&self) -> Map<(Seq<u8>, Seq<u8>), u64> {
        self.certificate_of@
    }

    /// The account that paid for the last request to issue the collection.
    pub closed spec fn issue_payer_spec(&self) -> Address {
        self.issue_payer
    }

    /// The nonce of the last certificate minted (0 before the first).
    pub closed spec fn last_nonce_spec(&self) -> u64 {
        self.last_nonce
    }

    pub closed spec fn wf(&self) -> bool {
        &&& self.issuers.wf()
        &&& self.revoked.wf()
        &&& self.certificate_of.wf()
        &&& forall|k: (Seq<u8>, Seq<u8>)| #[trigger]
            self.certificate_of@.contains_key(k) ==> 1 <= self.certificate_of@[k]
                <= self.last_nonce
        &&& forall|k1: (Seq<u8>, Seq<u8>), k2: (Seq<u8>, Seq<u8>)|
            #![trigger self.certificate_of@[k1], self.certificate_of@[k2]]
            self.certificate_of@.contains_key(k1) && self.certificate_of@.contains_key(k2) && k1
                != k2 ==> self.certificate_of@[k1] != self.certificate_of@[k2]
    }

    /// Everything but the certificate records and the nonce counter is as in `old`.
    pub open spec fn same_setup(&self, old: &Self) -> bool {
        &&& self.wf()
        &&& self.owner_spec() == old.owner_spec()
        &&& self.token_spec() == old.token_spec()
        &&& self.issuers_spec() == old.issuers_spec()
        &&& self.revoked_spec() == old.revoked_spec()
        &&& self.issue_payer_spec() == old.issue_payer_spec()
    }

    /// A fresh contract deployed by `owner`: no collection, no issuer, no certificate.
    pub fn init(owner: Address) -> (r: Self)
        ensures
            r.wf(),
            r.owner_spec() == owner,
            r.token_spec() is None,
            r.issuers_spec() == Set::<Seq<u8>>::empty(),
            r.revoked_spec() == Map::<u64, Vec<u8>>::empty(),
            r.certificates_spec() == Map::<(Seq<u8>, Seq<u8>), u64>::empty(),
            r.last_nonce_spec() == 0,
            r.issue_payer_spec() == owner,
    {
        let r = EduChainNft {
            owner,
            nft_token_id: None,
            issuers: KeyList::new(),
            revoked: KeyList::new(),
            certificate_of: KeyList::new(),
            last_nonce: 0,
            issue_payer: owner,
        };
        assert(r.issuers@.dom() =~= Set::<Seq<u8>>::empty());
        r
    }

    fn is_owner(&self, caller: &Address) -> (r: bool)
        ensures
            r == (caller@ == self.owner@),
    {
        array32_eq(caller, &self.owner)
    }

    /// `issueToken`: the owner asks the system contract to issue the collection, paying
    /// `egld_payment`; the payer is recorded for a refund should the issuance fail.
    pub fn issue_token(
        &mut self,
        caller: Address,
        egld_payment: u128,
        token_name: Vec<u8>,
        token_ticker: Vec<u8>,
    ) -> (r: Result<NftIssue, NftError>)
        ensures
            old(self).wf() ==> final(self).wf(),
            caller@ != old(self).owner_spec()@ ==> r == Err::<NftIssue, NftError>(NftError::OnlyOwner)
                && *final(self) == *old(self),
            caller@ == old(self).owner_spec()@ && old(self).token_spec() is Some ==> r == Err::<
                NftIssue,
                NftError,
            >(NftError::TokenAlreadyIssued) && *final(self) == *old(self),
            caller@ == old(self).owner_spec()@ && old(self).token_spec() is None ==> (r matches Ok(req)
                && req.issue_cost == egld_payment && req.token_name@ == token_name@
                && req.token_ticker@ == token_ticker@ && final(self).issue_payer_spec() == caller
                && final(self).owner_spec() == old(self).owner_spec() && final(self).token_spec()
                == old(self).token_spec() && final(self).issuers_spec() == old(self).issuers_spec()
                && final(self).revoked_spec() == old(self).revoked_spec()
                && final(self).certificates_spec() == old(self).certificates_spec()
                && final(self).last_nonce_spec() == old(self).last_nonce_spec()),
    {
        if !self.is_owner(&caller) {
            return Err(NftError::OnlyOwner);
        }
        if self.nft_token_id.is_some() {
            return Err(NftError::TokenAlreadyIssued);
        }
        self.issue_payer = caller;
        Ok(NftIssue { issue_cost: egld_payment, token_name, token_ticker })
    }

    /// The callback of the issuance: on success the collection's identifier is stored;
    /// on failure the EGLD that came back, if any, is returned to the account that paid
    /// for the issuance.
    pub fn issue_callback(&mut self, outcome: IssueOutcome) -> (r: Option<
        EgldRefund,
    >)
        requires
            old(self).wf(),
        ensures
            final(self).wf(),
            final(self).owner_spec() == old(self).owner_spec(),
            final(self).issuers_spec() == old(self).issuers_spec(),
            final(self).revoked_spec() == old(self).revoked_spec(),
            final(self).certificates_spec() == old(self).certificates_spec(),
            final(self).last_nonce_spec() == old(self).last_nonce_spec(),
            final(self).issue_payer_spec() == old(self).issue_payer_spec(),
            outcome matches IssueOutcome::Issued(id) ==> final(self).token_spec() == Some(id@)
                && r is None,
            outcome matches IssueOutcome::Failed(back) ==> final(self).token_spec()
                == old(self).token_spec() && (if back > 0 {
                r == Some(EgldRefund { to: old(self).issue_payer_spec(), amount: back })
            } else {
                r is None
            }),
    {
        match outcome {
            IssueOutcome::Issued(id) => {
                self.nft_token_id = Some(id);
                None
            },
            IssueOutcome::Failed(back) => {
                if back > 0 {
                    Some(EgldRefund { to: self.issue_payer, amount: back })
                } else {
                    None
                }
            },
        }
    }

    /// `setLocalRoles`: the owner asks for the create and burn roles of the collection
    /// for this contract; returns the collection's identifier.
    pub fn set_local_roles(&self, caller: Address) -> (r: Result<Vec<u8>, NftError>)
        ensures
            caller@ != self.owner_spec()@ ==> r == Err::<Vec<u8>, NftError>(NftError::OnlyOwner),
            caller@ == self.owner_spec()@ && self.token_spec() is None ==> r == Err::<
                Vec<u8>,
                NftError,
            >(NftError::TokenNotIssued),
            caller@ == self.owner_spec()@ && self.token_spec() is Some ==> (r matches Ok(id)
                && self.token_spec() == Some(id@)),
    {
        if !self.is_owner(&caller) {
            return Err(NftError::OnlyOwner);
        }
        match &self.nft_token_id {
            None => Err(NftError::TokenNotIssued),
            Some(id) => Ok(copy_bytes(id.as_slice())),
        }
    }

    /// `addIssuer` (owner only).
    pub fn add_issuer(&mut self, caller: Address, addr: Address) -> (r: Result<NftEvent, NftError>)
        requires
            old(self).wf(),
        ensures
            final(self).wf(),
            caller@ != old(self).owner_spec()@ ==> r == Err::<NftEvent, NftError>(NftError::OnlyOwner)
                && *final(self) == *old(self),
            caller@ == old(self).owner_spec()@ ==> r == Ok::<NftEvent, NftError>(
                NftEvent::IssuerAdded { addr },
            ) && final(self).issuers_spec() == old(self).issuers_spec().insert(addr@) && final(self).owner_spec()
                == old(self).owner_spec() && final(self).token_spec() == old(self).token_spec()
                && final(self).revoked_spec() == old(self).revoked_spec()
                && final(self).certificates_spec() == old(self).certificates_spec()
                && final(self).last_nonce_spec() == old(self).last_nonce_spec(),
    {
        if !self.is_owner(&caller) {
            return Err(NftError::OnlyOwner);
        }
        self.issuers.insert(addr, ());
        assert(self.issuers@.dom() =~= old(self).issuers@.dom().insert(addr@));
        Ok(NftEvent::IssuerAdded { addr })
    }

    /// `removeIssuer` (owner only).
    pub fn remove_issuer(&mut self, caller: Address, addr: Address) -> (r: Result<NftEvent, NftError>)
        requires
            old(self).wf(),
        ensures
            final(self).wf(),
            caller@ != old(self).owner_spec()@ ==> r == Err::<NftEvent, NftError>(NftError::OnlyOwner)
                && *final(self) == *old(self),
            caller@ == old(self).owner_spec()@ ==> r == Ok::<NftEvent, NftError>(
                NftEvent::IssuerRemoved { addr },
            ) && final(self).issuers_spec() == old(self).issuers_spec().remove(addr@) && final(self).owner_spec()
                == old(self).owner_spec() && final(self).token_spec() == old(self).token_spec()
                && final(self).revoked_spec() == old(self).revoked_spec()
                && final(self).certificates_spec() == old(self).certificates_spec()
                && final(self).last_nonce_spec() == old(self).last_nonce_spec(),
    {
        if !self.is_owner(&caller) {
            return Err(NftError::OnlyOwner);
        }
        self.issuers.remove(&addr);
        assert(self.issuers@.dom() =~= old(self).issuers@.dom().remove(addr@));
        Ok(NftEvent::IssuerRemoved { addr })
    }

    /// `isIssuer`.
    pub fn is_issuer(&self, addr: Address) -> (r: bool)
        requires
            self.wf(),
        ensures
            r == self.issuers_spec().contains(addr@),
    {
        self.issuers.contains(&addr)
    }

    /// Records the certificate of (`course_id`, `student`) under the next nonce and
    /// describes the NFT to create and send.
    fn mint_and_transfer_cert(
        &mut self,
        student: Address,
        token_name: &[u8],
        attrs: &CertificateAttributes,
    ) -> (m: MintedCertificate)
        requires
            old(self).wf(),
            old(self).nft_token_id is Some,
            old(self).last_nonce < u64::MAX,
            encodable(attrs@),
            !old(self).certificate_of@.contains_key((attrs.course_id@, student@)),
        ensures
            final(self).same_setup(old(self)),
            final(self).last_nonce == old(self).last_nonce + 1,
            final(self).certificate_of@ == old(self).certificate_of@.insert(
                (attrs.course_id@, student@),
                final(self).last_nonce,
            ),
            final(self).certificate_of.entries().subrange(
                0,
                old(self).certificate_of.entries().len() as int,
            ) == old(self).certificate_of.entries(),
            final(self).certificate_of.entries().len() == old(self).certificate_of.entries().len()
                + 1,
            minted_for(
                m,
                final(self).last_nonce,
                old(self).token_spec()->0,
                student,
                token_name@,
                attrs@,
            ),
    {
        let token_id = match &self.nft_token_id {
            Some(t) => copy_bytes(t.as_slice()),
            None => Vec::new(),
        };
        let attributes = encode_attributes(attrs);
        let attributes_hash = sha256_bytes(attributes.as_slice());
        let nonce = self.last_nonce + 1;
        self.last_nonce = nonce;
        let ghost old_entries = self.certificate_of.entries();
        self.certificate_of.insert(
            CertKey { course_id: copy_bytes(attrs.course_id.as_slice()), student },
            nonce,
        );
        assert(self.certificate_of.entries().subrange(0, old_entries.len() as int) =~= old_entries);
        MintedCertificate {
            nonce,
            token_id,
            token_name: copy_bytes(token_name),
            student,
            attributes,
            attributes_hash,
        }
    }

    /// `issueCertificate`: an authorized issuer issues the certificate `attrs` to
    /// `student` at time `now`; the NFT is minted under the next nonce and sent to the
    /// student, and the `certificate_issued` event is returned with it.
    pub fn issue_certificate(
        &mut self,
        caller: Address,
        now: u64,
        student: Address,
        token_name: Vec<u8>,
        attrs: CertificateAttributes,
    ) -> (r: Result<(MintedCertificate, NftEvent), NftError>)
        requires
            old(self).wf(),
            old(self).last_nonce_spec() < u64::MAX,
            encodable(attrs@),
        ensures
            final(self).wf(),
            !old(self).issuers_spec().contains(caller@) ==> r == Err::<
                (MintedCertificate, NftEvent),
                NftError,
            >(NftError::NotIssuer) && *final(self) == *old(self),
            old(self).issuers_spec().contains(caller@) && old(self).token_spec() is None ==> r
                == Err::<(MintedCertificate, NftEvent), NftError>(NftError::TokenNotIssued) && *final(self)
                == *old(self),
            old(self).issuers_spec().contains(caller@) && old(self).token_spec() is Some ==> (
            match issue_error(old(self).certificates_spec(), now, student, attrs@) {
                Some(e) => r == Err::<(MintedCertificate, NftEvent), NftError>(e) && *final(self) == *old(self),
                None => r matches Ok((m, ev)) && {
                    let nonce = (old(self).last_nonce_spec() + 1) as u64;
                    &&& issued_event(ev, student, attrs@, nonce, caller, now)
                    &&& minted_for(
                        m,
                        nonce,
                        old(self).token_spec()->0,
                        student,
                        token_name@,
                        attrs@,
                    )
                    &&& final(self).last_nonce_spec() == nonce
                    &&& final(self).certificates_spec() == old(self).certificates_spec().insert(
                        (attrs@.course_id, student@),
                        nonce,
                    )
                    &&& final(self).same_setup(old(self))
                },
            }),
    {
        if !self.issuers.contains(&caller) {
            return Err(NftError::NotIssuer);
        }
        if self.nft_token_id.is_none() {
            return Err(NftError::TokenNotIssued);
        }
        if attrs.grade > 100 {
            return Err(NftError::InvalidGrade);
        }
        if !(attrs.expiration_timestamp == 0 || attrs.expiration_timestamp > now) {
            return Err(NftError::InvalidExpiration);
        }
        if let Some(eqf) = attrs.eqf_level {
            if !(eqf >= 1 && eqf <= 8) {
                return Err(NftError::InvalidEqfLevel);
            }
        }
        if attrs.certificate_version != CURRENT_CERT_VERSION {
            return Err(NftError::UnsupportedVersion);
        }
        let key = CertKey { course_id: copy_bytes(attrs.course_id.as_slice()), student };
        if self.certificate_of.contains(&key) {
            return Err(NftError::AlreadyIssued);
        }
        let m = self.mint_and_transfer_cert(student, token_name.as_slice(), &attrs);
        let event = NftEvent::CertificateIssued {
            student,
            course_id: copy_bytes(attrs.course_id.as_slice()),
            nonce: m.nonce,
            issuer: caller,
            grade: attrs.grade,
            timestamp: now,
        };
        Ok((m, event))
    }

    /// `issueCertificateBatch`: an authorized issuer issues up to `BATCH_LIMIT`
    /// certificates in order; a request whose certificate exists (also one issued
    /// earlier in the same batch) yields the existing nonce. Either every request goes
    /// through, or nothing changes.
    pub fn issue_certificate_batch(
        &mut self,
        caller: Address,
        now: u64,
        requests: &Vec<CertificateRequest>,
    ) -> (r:
        Result<Vec<BatchItem>, NftError>)
        requires
            old(self).wf(),
            old(self).last_nonce_spec() + requests@.len() <= u64::MAX,
            forall|i: int| 0 <= i < requests@.len() ==> encodable(#[trigger] requests@[i].attrs@),
        ensures
            final(self).wf(),
            !old(self).issuers_spec().contains(caller@) ==> r == Err::<Vec<BatchItem>, NftError>(
                NftError::NotIssuer,
            ) && *final(self) == *old(self),
            old(self).issuers_spec().contains(caller@) && old(self).token_spec() is None ==> r
                == Err::<Vec<BatchItem>, NftError>(NftError::TokenNotIssued) && *final(self)
                == *old(self),
            old(self).issuers_spec().contains(caller@) && old(self).token_spec() is Some
                && requests@.len() > BATCH_LIMIT ==> r == Err::<Vec<BatchItem>, NftError>(
                NftError::BatchTooLarge,
            ) && *final(self) == *old(self),
            old(self).issuers_spec().contains(caller@) && old(self).token_spec() is Some
                && requests@.len() <= BATCH_LIMIT ==> match batch_run(
                old(self).certificates_spec(),
                old(self).last_nonce_spec(),
                requests@,
            ) {
                Err(e) => r == Err::<Vec<BatchItem>, NftError>(e) && final(self).same_setup(old(self))
                    && final(self).certificates_spec() == old(self).certificates_spec()
                    && final(self).last_nonce_spec() == old(self).last_nonce_spec(),
                Ok((certs, last, outs)) => r matches Ok(items) && {
                    &&& final(self).same_setup(old(self))
                    &&& final(self).certificates_spec() == certs
                    &&& final(self).last_nonce_spec() == last
                    &&& items@.len() == requests@.len()
                    &&& forall|i: int|
                        0 <= i < items@.len() ==> {
                            &&& (#[trigger] items@[i]).nonce == outs[i].0
                            &&& (items@[i].minted is Some <==> outs[i].1)
                            &&& (items@[i].minted matches Some(m) ==> minted_for(
                                m,
                                outs[i].0,
                                old(self).token_spec()->0,
                                requests@[i].student,
                                requests@[i].token_name@,
                                requests@[i].attrs@,
                            ))
                            &&& (items@[i].event is Some <==> outs[i].1)
                            &&& (items@[i].event matches Some(ev) ==> issued_event(
                                ev,
                                requests@[i].student,
                                requests@[i].attrs@,
                                outs[i].0,
                                caller,
                                now,
                            ))
                        }
                },
            },
    {
        if !self.issuers.contains(&caller) {
            return Err(NftError::NotIssuer);
        }
        if self.nft_token_id.is_none() {
            return Err(NftError::TokenNotIssued);
        }
        if requests.len() > BATCH_LIMIT {
            return Err(NftError::BatchTooLarge);
        }
        let start_nonce = self.last_nonce;
        let start_len = self.certificate_of.len();
        let ghost snapshot = self.certificate_of;
        let ghost old_self = *self;
        let mut items: Vec<BatchItem> = Vec::new();
        let ghost mut outs: Seq<(u64, bool)> = Seq::empty();
        let mut i: usize = 0;
        assert(requests@.take(0) =~= Seq::<CertificateRequest>::empty());
        while i < requests.len()
            invariant
                i <= requests@.len(),
                self.wf(),
                self.same_setup(&old_self),
                old_self.wf(),
                old_self == *old(self),
                old(self).issuers_spec().contains(caller@),
                old(self).token_spec() is Some,
                requests@.len() <= BATCH_LIMIT,
                self.token_spec() is Some,
                snapshot == old_self.certificate_of,
                start_nonce == old_self.last_nonce,
                start_len == snapshot.entries().len(),
                start_len <= self.certificate_of.entries().len(),
                self.certificate_of.entries().subrange(0, start_len as int) == snapshot.entries(),
                self.last_nonce <= start_nonce + i,
                start_nonce + requests@.len() <= u64::MAX,
                forall|j: int| 0 <= j < requests@.len() ==> encodable(#[trigger] requests@[j].attrs@),
                batch_run(old_self.certificates_spec(), start_nonce, requests@.take(i as int)) == Ok::<
                    (Map<(Seq<u8>, Seq<u8>), u64>, u64, Seq<(u64, bool)>),
                    NftError,
                >((self.certificates_spec(), self.last_nonce, outs)),
                items@.len() == i,
                outs.len() == i,
                forall|j: int|
                    0 <= j < i ==> {
                        &&& (#[trigger] items@[j]).nonce == outs[j].0
                        &&& (items@[j].minted is Some <==> outs[j].1)
                        &&& (items@[j].minted matches Some(m) ==> minted_for(
                            m,
                            outs[j].0,
                            old_self.token_spec()->0,
                            requests@[j].student,
                            requests@[j].token_name@,
                            requests@[j].attrs@,
                        ))
                        &&& (items@[j].event is Some <==> outs[j].1)
                        &&& (items@[j].event matches Some(ev) ==> issued_event(
                            ev,
                            requests@[j].student,
                            requests@[j].attrs@,
                            outs[j].0,
                            caller,
                            now,
                        ))
                    },
            decreases requests@.len() - i,
        {
            let req = &requests[i];
            proof {
                assert(requests@.take(i + 1).drop_last() =~= requests@.take(i as int));
                assert(requests@.take(i + 1).last() == requests@[i as int]);
            }
            let key = CertKey { course_id: copy_bytes(req.attrs.course_id.as_slice()), student: req.student };
            let existing = match self.certificate_of.get(&key) {
                Some(n) => *n,
                None => 0,
            };
            if existing != 0 {
                items.push(BatchItem { nonce: existing, minted: None, event: None });
                proof {
                    outs = outs.push((existing, false));
                }
                i = i + 1;
                continue;
            }
            let bad = if req.attrs.grade > 100 {
                Some(NftError::InvalidGrade)
            } else {
                match req.attrs.eqf_level {
                    Some(eqf) => if !(eqf >= 1 && eqf <= 8) {
                        Some(NftError::InvalidEqfLevel)
                    } else {
                        None
                    },
                    None => None,
                }
            };
            if let Some(e) = bad {
                proof {
                    assert(nonce_of(self.certificates_spec(), (req.attrs.course_id@, req.student@))
                        == 0);
                    assert(batch_step(
                        self.certificates_spec(),
                        self.last_nonce,
                        requests@[i as int],
                    ) == Err::<(Map<(Seq<u8>, Seq<u8>), u64>, u64, (u64, bool)), NftError>(e));
                    assert(batch_run(old_self.certificates_spec(), start_nonce, requests@.take(i + 1))
                        == Err::<(Map<(Seq<u8>, Seq<u8>), u64>, u64, Seq<(u64, bool)>), NftError>(e));
                    lemma_batch_run_prefix_error(
                        old_self.certificates_spec(),
                        start_nonce,
                        requests@,
                        i + 1,
                    );
                }
                self.certificate_of.truncate(start_len, Ghost(snapshot));
                self.last_nonce = start_nonce;
                return Err(e);
            }
            let m = self.mint_and_transfer_cert(req.student, req.token_name.as_slice(), &req.attrs);
            proof {
                outs = outs.push((m.nonce, true));
                assert(self.certificate_of.entries().subrange(0, start_len as int) =~= snapshot.entries());
            }
            let event = NftEvent::CertificateIssued {
                student: req.student,
                course_id: copy_bytes(req.attrs.course_id.as_slice()),
                nonce: m.nonce,
                issuer: caller,
                grade: req.attrs.grade,
                timestamp: now,
            };
            items.push(BatchItem { nonce: m.nonce, minted: Some(m), event: Some(event) });
            i = i + 1;
        }
        proof {
            assert(requests@.take(requests@.len() as int) =~= requests@);
        }
        Ok(items)
    }

    /// `revokeCertificate`: an authorized issuer revokes certificate `nonce` (softly:
    /// the NFT stays with the student).
    pub fn revoke_certificate(&mut self, caller: Address, nonce: u64, reason: Vec<u8>) -> (r: Result<
        NftEvent,
        NftError,
    >)
        requires
            old(self).wf(),
        ensures
            final(self).wf(),
            !old(self).issuers_spec().contains(caller@) ==> r == Err::<NftEvent, NftError>(
                NftError::NotIssuer,
            ) && *final(self) == *old(self),
            old(self).issuers_spec().contains(caller@) && nonce == 0 ==> r == Err::<NftEvent, NftError>(
                NftError::InvalidNonce,
            ) && *final(self) == *old(self),
            old(self).issuers_spec().contains(caller@) && nonce != 0
                && old(self).revoked_spec().contains_key(nonce) ==> r == Err::<NftEvent, NftError>(
                NftError::AlreadyRevoked,
            ) && *final(self) == *old(self),
            old(self).issuers_spec().contains(caller@) && nonce != 0
                && !old(self).revoked_spec().contains_key(nonce) ==> (r matches Ok(
                NftEvent::CertificateRevoked { nonce: n, issuer, reason: why },
            ) && n == nonce && issuer == caller && why@ == reason@)
                && final(self).revoked_spec() == old(self).revoked_spec().insert(nonce, reason)
                && final(self).owner_spec() == old(self).owner_spec() && final(self).token_spec()
                == old(self).token_spec() && final(self).issuers_spec()
                == old(self).issuers_spec() && final(self).certificates_spec()
                == old(self).certificates_spec() && final(self).last_nonce_spec()
                == old(self).last_nonce_spec(),
    {
        if !self.issuers.contains(&caller) {
            return Err(NftError::NotIssuer);
        }
        if nonce == 0 {
            return Err(NftError::InvalidNonce);
        }
        if self.revoked.contains(&nonce) {
            return Err(NftError::AlreadyRevoked);
        }
        let event_reason = copy_bytes(reason.as_slice());
        self.revoked.insert(nonce, reason);
        Ok(NftEvent::CertificateRevoked { nonce, issuer: caller, reason: event_reason })
    }

    /// `verifyCertificate`: the status of certificate `nonce` at `now`, given the
    /// attributes the chain holds for that NFT (empty where it holds none).
    pub fn verify_certificate(&self, nonce: u64, now: u64, stored_attributes: &[u8]) -> (r:
        CertificateStatus)
        requires
            self.wf(),
        ensures
            r == verify_status(self.revoked_spec().dom(), nonce, now, stored_attributes@),
    {
        if nonce == 0 {
            return CertificateStatus::Unknown;
        }
        if self.revoked.contains(&nonce) {
            return CertificateStatus::Revoked;
        }
        match decode_attributes(stored_attributes) {
            Some(attrs) => {
                if attrs.expiration_timestamp > 0 && now > attrs.expiration_timestamp {
                    CertificateStatus::Expired
                } else {
                    CertificateStatus::Active
                }
            },
            None => CertificateStatus::Unknown,
        }
    }

    /// `getCertificateAttributes`: the attributes of an NFT, given what the chain holds
    /// for it; `None` where they do not decode (on which the contract's view fails).
    pub fn get_certificate_attributes(&self, stored_attributes: &[u8]) -> (r: Option<
        CertificateAttributes,
    >)
        ensures
            r matches Some(a) ==> decoded(stored_attributes@) == Some(a@),
            r is None ==> decoded(stored_attributes@) is None,
            r matches Some(a) ==> encode_attributes_spec(a@) == stored_attributes@ && encodable(
                a@,
            ),
            r is None ==> forall|a: AttributesView|
                encodable(a) ==> #[trigger] encode_attributes_spec(a) != stored_attributes@,
    {
        decode_attributes(stored_attributes)
    }

    /// `getCertificateNonce`: the nonce of the certificate of (`course_id`, `student`),
    /// 0 where there is none.
    pub fn get_certificate_nonce(&self, course_id: &[u8], student: Address) -> (r: u64)
        requires
            self.wf(),
        ensures
            r == nonce_of(self.certificates_spec(), (course_id@, student@)),
    {
        let key = CertKey { course_id: copy_bytes(course_id), student };
        match self.certificate_of.get(&key) {
            Some(n) => *n,
            None => 0,
        }
    }

    /// `getRevocationReason`: why certificate `nonce` was revoked (empty if it was not).
    pub fn get_revocation_reason(&self, nonce: u64) -> (r: Vec<u8>)
        requires
            self.wf(),
        ensures
            self.revoked_spec().contains_key(nonce) ==> r@ == self.revoked_spec()[nonce]@,
            !self.revoked_spec().contains_key(nonce) ==> r@ == Seq::<u8>::empty(),
    {
        match self.revoked.get(&nonce) {
            Some(reason) => copy_bytes(reason.as_slice()),
            None => Vec::new(),
        }
    }
}

/// Verifying an issued certificate, with the attributes it was minted with, reports it
/// active, or expired once its expiration time has passed, as long as it is not
/// revoked.
pub proof fn law_issued_certificate_verifies(
    a: AttributesView,
    revoked: Set<u64>,
    nonce: u64,
    now: u64,
)
    requires
        encodable(a),
        nonce != 0,
        !revoked.contains(nonce),
    ensures
        verify_status(revoked, nonce, now, encode_attributes_spec(a)) == status_of(a, now),
        a.expiration_timestamp == 0 ==> verify_status(revoked, nonce, now, encode_attributes_spec(a))
            == CertificateStatus::Active,
{
    law_attributes_round_trip(a);
}

/// A revoked certificate is reported revoked, whatever its attributes.
pub proof fn law_revoked_certificate_reported(
    revoked: Set<u64>,
    nonce: u64,
    now: u64,
    stored: Seq<u8>,
)
    requires
        nonce != 0,
        revoked.contains(nonce),
    ensures
        verify_status(revoked, nonce, now, stored) == CertificateStatus::Revoked,
{
}

/// Nonce 0 never names a certificate.
pub proof fn law_nonce_zero_unknown(revoked: Set<u64>, now: u64, stored: Seq<u8>)
    ensures
        verify_status(revoked, 0, now, stored) == CertificateStatus::Unknown,
{
}

/// A student holds at most one certificate per course: once (course, student) is
/// recorded, issuing it again is refused unless an earlier check refuses first.
pub proof fn law_one_certificate_per_course(
    certs: Map<(Seq<u8>, Seq<u8>), u64>,
    now: u64,
    student: Address,
    a: AttributesView,
)
    requires
        certs.contains_key((a.course_id, student@)),
    ensures
        issue_error(certs, now, student, a) is Some,
        issue_error(certs, now, student, a) != Some(NftError::AlreadyIssued) ==> (a.grade > 100 || (
        a.expiration_timestamp != 0 && a.expiration_timestamp <= now) || bad_eqf(a.eqf_level)
            || a.certificate_version != CURRENT_CERT_VERSION),
{
}

/// In a batch, a certificate that exists is not minted again: its request yields the
/// recorded nonce and changes nothing.
pub proof fn law_batch_skips_existing(
    certs: Map<(Seq<u8>, Seq<u8>), u64>,
    last: u64,
    req: CertificateRequest,
)
    requires
        certs.contains_key((req.attrs.course_id@, req.student@)),
        certs[(req.attrs.course_id@, req.student@)] != 0,
    ensures
        batch_step(certs, last, req) == Ok::<
            (Map<(Seq<u8>, Seq<u8>), u64>, u64, (u64, bool)),
            NftError,
        >((certs, last, (certs[(req.attrs.course_id@, req.student@)], false))),
{
}

/// Each certificate has an NFT nonce of its own: certificates of two different
/// (course, student) pairs never share a nonce, and no recorded nonce is 0 or beyond
/// the last one minted.
pub proof fn law_certificate_nonces_distinct(
    nft: &EduChainNft,
    k1: (Seq<u8>, Seq<u8>),
    k2: (Seq<u8>, Seq<u8>),
)
    requires
        nft.wf(),
        nft.certificates_spec().contains_key(k1),
        nft.certificates_spec().contains_key(k2),
    ensures
        k1 != k2 ==> nft.certificates_spec()[k1] != nft.certificates_spec()[k2],
        1 <= nft.certificates_spec()[k1] <= nft.last_nonce_spec(),
{
}

/// The key under which a request's certificate is recorded.
pub open spec fn request_key(req: CertificateRequest) -> (Seq<u8>, Seq<u8>) {
    (req.attrs.course_id@, req.student@)
}

proof fn lemma_batch_len(
    certs: Map<(Seq<u8>, Seq<u8>), u64>,
    last: u64,
    reqs: Seq<CertificateRequest>,
)
    requires
        batch_run(certs, last, reqs) is Ok,
    ensures
        batch_run(certs, last, reqs)->Ok_0.2.len() == reqs.len(),
    decreases reqs.len(),
{
    if reqs.len() > 0 {
        lemma_batch_len(certs, last, reqs.drop_last());
    }
}

proof fn lemma_batch_prefix(
    certs: Map<(Seq<u8>, Seq<u8>), u64>,
    last: u64,
    reqs: Seq<CertificateRequest>,
    k: int,
)
    requires
        batch_run(certs, last, reqs) is Ok,
        0 <= k <= reqs.len(),
    ensures
        batch_run(certs, last, reqs.take(k)) is Ok,
        batch_run(certs, last, reqs.take(k))->Ok_0.2 == batch_run(certs, last, reqs)->Ok_0.2.take(k),
    decreases reqs.len(),
{
    lemma_batch_len(certs, last, reqs);
    if k == reqs.len() {
        assert(reqs.take(k) =~= reqs);
        assert(batch_run(certs, last, reqs)->Ok_0.2.take(k) =~= batch_run(certs, last, reqs)->Ok_0.2);
    } else {
        let inner = batch_run(certs, last, reqs.drop_last());
        lemma_batch_prefix(certs, last, reqs.drop_last(), k);
        lemma_batch_len(certs, last, reqs.drop_last());
        assert(reqs.drop_last().take(k) =~= reqs.take(k));
        assert(batch_run(certs, last, reqs)->Ok_0.2 == inner->Ok_0.2.push(
            batch_step(inner->Ok_0.0, inner->Ok_0.1, reqs.last())->Ok_0.2,
        ));
        assert(inner->Ok_0.2.take(k) =~= batch_run(certs, last, reqs)->Ok_0.2.take(k));
    }
}

proof fn lemma_batch_records(
    certs: Map<(Seq<u8>, Seq<u8>), u64>,
    last: u64,
    reqs: Seq<CertificateRequest>,
)
    requires
        batch_run(certs, last, reqs) is Ok,
        last + reqs.len() <= u64::MAX,
        forall|k: (Seq<u8>, Seq<u8>)| #[trigger] certs.contains_key(k) ==> certs[k] != 0,
    ensures
        ({
            let (c, l, outs) = batch_run(certs, last, reqs)->Ok_0;
            &&& l <= last + reqs.len()
            &&& outs.len() == reqs.len()
            &&& forall|k: (Seq<u8>, Seq<u8>)| #[trigger] c.contains_key(k) ==> c[k] != 0
            &&& forall|k: (Seq<u8>, Seq<u8>)|
                #[trigger] certs.contains_key(k) ==> c.contains_key(k) && c[k] == certs[k]
            &&& forall|i: int|
                0 <= i < reqs.len() ==> c.contains_key(request_key(#[trigger] reqs[i])) && c[request_key(
                    reqs[i],
                )] == outs[i].0
        }),
    decreases reqs.len(),
{
    if reqs.len() > 0 {
        let pre = reqs.drop_last();
        lemma_batch_records(certs, last, pre);
        let (c1, l1, outs1) = batch_run(certs, last, pre)->Ok_0;
        let req = reqs.last();
        let key = request_key(req);
        let (c, l, outs) = batch_run(certs, last, reqs)->Ok_0;
        if nonce_of(c1, key) == 0 {
            assert(!c1.contains_key(key));
        }
        assert forall|i: int| 0 <= i < reqs.len() implies c.contains_key(request_key(
            #[trigger] reqs[i],
        )) && c[request_key(reqs[i])] == outs[i].0 by {
            if i < pre.len() {
                assert(pre[i] == reqs[i]);
            }
        }
    }
}

/// In one batch, a request repeating an earlier request's (course, student) is not
/// minted again: it yields the nonce that the earlier request got.
pub proof fn law_batch_repeats_share_nonce(
    certs: Map<(Seq<u8>, Seq<u8>), u64>,
    last: u64,
    reqs: Seq<CertificateRequest>,
    i: int,
    j: int,
)
    requires
        batch_run(certs, last, reqs) is Ok,
        last + reqs.len() <= u64::MAX,
        forall|k: (Seq<u8>, Seq<u8>)| #[trigger] certs.contains_key(k) ==> certs[k] != 0,
        0 <= i < j < reqs.len(),
        request_key(reqs[i]) == request_key(reqs[j]),
    ensures
        batch_run(certs, last, reqs)->Ok_0.2[j] == (batch_run(certs, last, reqs)->Ok_0.2[i].0, false),
{
    let outs = batch_run(certs, last, reqs)->Ok_0.2;
    lemma_batch_len(certs, last, reqs);
    lemma_batch_prefix(certs, last, reqs, j);
    lemma_batch_prefix(certs, last, reqs, j + 1);
    let pre = reqs.take(j);
    let pre1 = reqs.take(j + 1);
    lemma_batch_records(certs, last, pre);
    assert(pre[i] == reqs[i]);
    assert(pre1.drop_last() =~= pre);
    assert(pre1.last() == reqs[j]);
    let cj = batch_run(certs, last, pre)->Ok_0.0;
    assert(cj.contains_key(request_key(pre[i])));
    assert(batch_run(certs, last, pre1)->Ok_0.2[j] == outs[j]);
    assert(batch_run(certs, last, pre)->Ok_0.2[i] == outs[i]);
}

/// A recorded certificate keeps its nonce: issuing the certificate of another
/// (course, student) pair leaves what `getCertificateNonce` reads for this one as it
/// was.
pub proof fn law_recorded_nonce_persists(
    certs: Map<(Seq<u8>, Seq<u8>), u64>,
    key: (Seq<u8>, Seq<u8>),
    other: (Seq<u8>, Seq<u8>),
    nonce: u64,
)
    requires
        certs.contains_key(key),
        !certs.contains_key(other),
    ensures
        nonce_of(certs.insert(other, nonce), key) == nonce_of(certs, key),
{
}

/// A batch never changes a certificate recorded before it: after a batch that goes
/// through, every earlier record holds the nonce it held.
pub proof fn law_batch_keeps_records(
    certs: Map<(Seq<u8>, Seq<u8>), u64>,
    last: u64,
    reqs: Seq<CertificateRequest>,
    key: (Seq<u8>, Seq<u8>),
)
    requires
        batch_run(certs, last, reqs) is Ok,
        last + reqs.len() <= u64::MAX,
        forall|k: (Seq<u8>, Seq<u8>)| #[trigger] certs.contains_key(k) ==> certs[k] != 0,
        certs.contains_key(key),
    ensures
        batch_run(certs, last, reqs)->Ok_0.0.contains_key(key),
        batch_run(certs, last, reqs)->Ok_0.0[key] == certs[key],
{
    lemma_batch_records(certs, last, reqs);
}

proof fn lemma_batch_keys(
    certs: Map<(Seq<u8>, Seq<u8>), u64>,
    last: u64,
    reqs: Seq<CertificateRequest>,
    k: (Seq<u8>, Seq<u8>),
)
    requires
        batch_run(certs, last, reqs) is Ok,
        batch_run(certs, last, reqs)->Ok_0.0.contains_key(k),
    ensures
        certs.contains_key(k) || exists|j: int| 0 <= j < reqs.len() && request_key(#[trigger] reqs[j]) == k,
    decreases reqs.len(),
{
    if reqs.len() > 0 {
        let pre = reqs.drop_last();
        let (c1, l1, o1) = batch_run(certs, last, pre)->Ok_0;
        if c1.contains_key(k) {
            lemma_batch_keys(certs, last, pre, k);
            if !certs.contains_key(k) {
                let j = choose|j: int| 0 <= j < pre.len() && request_key(#[trigger] pre[j]) == k;
                assert(reqs[j] == pre[j]);
            }
        } else {
            assert(request_key(reqs[reqs.len() - 1]) == k);
        }
    }
}

/// A batch checks every certificate it mints as single issuance does: a request whose
/// (course, student) is recorded neither before the batch nor by an earlier request of
/// it, and whose grade is above 100 or whose EQF level lies outside 1..=8, makes the
/// whole batch fail (then nothing is minted or recorded).
pub proof fn law_batch_rejects_invalid_new_certificate(
    certs: Map<(Seq<u8>, Seq<u8>), u64>,
    last: u64,
    reqs: Seq<CertificateRequest>,
    i: int,
)
    requires
        0 <= i < reqs.len(),
        !certs.contains_key(request_key(reqs[i])),
        forall|j: int| 0 <= j < i ==> request_key(#[trigger] reqs[j]) != request_key(reqs[i]),
        reqs[i].attrs.grade > 100 || (reqs[i].attrs.eqf_level matches Some(e) && (e < 1 || e > 8)),
    ensures
        batch_run(certs, last, reqs) is Err,
        reqs[i].attrs.grade <= 100 && batch_run(certs, last, reqs.take(i)) is Ok ==> batch_run(
            certs,
            last,
            reqs,
        ) == Err::<(Map<(Seq<u8>, Seq<u8>), u64>, u64, Seq<(u64, bool)>), NftError>(
            NftError::InvalidEqfLevel,
        ),
{
    let pre = reqs.take(i);
    let pre1 = reqs.take(i + 1);
    assert(pre1.drop_last() =~= pre);
    assert(pre1.last() == reqs[i]);
    if batch_run(certs, last, pre) is Ok {
        let c = batch_run(certs, last, pre)->Ok_0.0;
        if c.contains_key(request_key(reqs[i])) {
            lemma_batch_keys(certs, last, pre, request_key(reqs[i]));
            let j = choose|j: int| 0 <= j < pre.len() && request_key(#[trigger] pre[j]) == request_key(reqs[i]);
            assert(pre[j] == reqs[j]);
        }
        assert(nonce_of(c, request_key(reqs[i])) == 0);
        assert(batch_run(certs, last, pre1) is Err);
    } else {
        lemma_batch_run_prefix_error(certs, last, pre1, i);
    }
    lemma_batch_run_prefix_error(certs, last, reqs, i + 1);
}

} // verus!
