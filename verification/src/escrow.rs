use vstd::prelude::*;

use crate::bytes::{array32_eq, copy_bytes, Address};
use crate::chain::{Payment, Transfer};
use crate::token_id::{is_valid_esdt_identifier_spec, validate_token_identifier};

verus! {

/// Life-cycle state of a mentoring session.
#[derive(Clone, Copy, Debug, PartialEq, Eq, Structural)]
pub enum SessionStatus {
    Open,
    Completed,
    Disputed,
    Expired,
}

/// A mentoring session whose payment the escrow holds.
#[derive(Clone, Copy, Debug)]
pub struct Session {
    pub student: Address,
    pub mentor: Address,
    pub amount: u128,
    pub deadline: u64,
    pub status: SessionStatus,
    pub created_at: u64,
}

/// Why an escrow call is refused (the transaction reverts and nothing changes).
#[derive(Clone, Copy, Debug, PartialEq, Eq, Structural)]
pub enum EscrowError {
    /// The endpoint is reserved to the contract owner.
    OnlyOwner,
    /// "Invalid token identifier"
    InvalidTokenIdentifier,
    /// "Student and mentor must differ"
    SameStudentAndMentor,
    /// "Deadline must be at least 60 seconds in the future"
    DeadlineTooSoon,
    /// The call does not carry exactly one ESDT transfer.
    IncorrectNumberOfTransfers,
    /// "Payment must be in $ECT"
    WrongPaymentToken,
    /// "Amount must be > 0"
    ZeroAmount,
    /// "Session not found" (also: no session is stored under that id)
    SessionNotFound,
    /// "Session is not open"
    SessionNotOpen,
    /// "Only the student can confirm"
    NotStudent,
    /// "Only student or mentor can dispute"
    NotParty,
    /// "Session is not disputed"
    SessionNotDisputed,
    /// "Winner must be student or mentor"
    InvalidWinner,
    /// "Session deadline not yet reached"
    DeadlineNotReached,
}

/// What the escrow logs on the chain when a call succeeds.
#[derive(Clone, Debug)]
pub enum EscrowEvent {
    /// `session_created`
    SessionCreated { id: u64, student: Address, mentor: Address, deadline: u64, amount: u128 },
    /// `session_completed`
    SessionCompleted { id: u64, student: Address, mentor: Address },
    /// `session_disputed`
    SessionDisputed { id: u64, initiator: Address, reason: Vec<u8> },
    /// `session_resolved`
    SessionResolved { id: u64, winner: Address },
    /// `session_expired`
    SessionExpired { id: u64, released_to: Address },
}

/// The session's payment is still held by the escrow.
pub open spec fn holds_funds(status: SessionStatus) -> bool {
    status == SessionStatus::Open || status == SessionStatus::Disputed
}

/// What one session contributes to the funds the escrow holds.
pub open spec fn locked_amount(s: Session) -> int {
    if holds_funds(s.status) {
        s.amount as int
    } else {
        0
    }
}

/// Total of the payments that the escrow holds for the given sessions.
pub open spec fn locked_total(sessions: Seq<Session>) -> int
    decreases sessions.len(),
{
    if sessions.len() == 0 {
        0
    } else {
        locked_total(sessions.drop_last()) + locked_amount(sessions.last())
    }
}

proof fn lemma_locked_total_push(s: Seq<Session>, x: Session)
    ensures
        locked_total(s.push(x)) == locked_total(s) + locked_amount(x),
{
    assert(s.push(x).drop_last() =~= s);
}

proof fn lemma_locked_total_update(s: Seq<Session>, i: int, x: Session)
    requires
        0 <= i < s.len(),
    ensures
        locked_total(s.update(i, x)) == locked_total(s) - locked_amount(s[i]) + locked_amount(x),
    decreases s.len(),
{
    if i == s.len() - 1 {
        assert(s.update(i, x).drop_last() =~= s.drop_last());
    } else {
        lemma_locked_total_update(s.drop_last(), i, x);
        assert(s.update(i, x).drop_last() =~= s.drop_last().update(i, x));
    }
}

/// The first check of `createSession` that fails, if any.
pub open spec fn create_session_error(
    token_id: Seq<u8>,
    caller: Address,
    now: u64,
    transfers: Seq<Payment>,
    mentor: Address,
    deadline: u64,
) -> Option<EscrowError> {
    if caller@ == mentor@ {
        Some(EscrowError::SameStudentAndMentor)
    } else if !(deadline > now + 60) {
        Some(EscrowError::DeadlineTooSoon)
    } else if transfers.len() != 1 {
        Some(EscrowError::IncorrectNumberOfTransfers)
    } else if transfers[0].token_id@ != token_id {
        Some(EscrowError::WrongPaymentToken)
    } else if transfers[0].amount == 0 {
        Some(EscrowError::ZeroAmount)
    } else {
        None
    }
}

/// The first check that fails when the session `id` must be open.
pub open spec fn open_session_error(sessions: Seq<Session>, id: u64) -> Option<EscrowError> {
    if id >= sessions.len() {
        Some(EscrowError::SessionNotFound)
    } else if sessions[id as int].status != SessionStatus::Open {
        Some(EscrowError::SessionNotOpen)
    } else {
        None
    }
}

/// The first check of `confirmCompletion` that fails, if any.
pub open spec fn confirm_error(sessions: Seq<Session>, caller: Address, id: u64) -> Option<
    EscrowError,
> {
    if open_session_error(sessions, id) is Some {
        open_session_error(sessions, id)
    } else if caller@ != sessions[id as int].student@ {
        Some(EscrowError::NotStudent)
    } else {
        None
    }
}

/// The first check of `disputeSession` that fails, if any.
pub open spec fn dispute_error(sessions: Seq<Session>, caller: Address, id: u64) -> Option<
    EscrowError,
> {
    if open_session_error(sessions, id) is Some {
        open_session_error(sessions, id)
    } else if caller@ != sessions[id as int].student@ && caller@ != sessions[id as int].mentor@ {
        Some(EscrowError::NotParty)
    } else {
        None
    }
}

/// The first check of `resolveDispute` that fails, if any.
pub open spec fn resolve_error(
    owner: Address,
    sessions: Seq<Session>,
    caller: Address,
    id: u64,
    winner: Address,
) -> Option<EscrowError> {
    if caller@ != owner@ {
        Some(EscrowError::OnlyOwner)
    } else if id >= sessions.len() {
        Some(EscrowError::SessionNotFound)
    } else if sessions[id as int].status != SessionStatus::Disputed {
        Some(EscrowError::SessionNotDisputed)
    } else if winner@ != sessions[id as int].student@ && winner@ != sessions[id as int].mentor@ {
        Some(EscrowError::InvalidWinner)
    } else {
        None
    }
}

/// The first check of `expireSession` that fails, if any.
pub open spec fn expire_error(sessions: Seq<Session>, now: u64, id: u64) -> Option<EscrowError> {
    if open_session_error(sessions, id) is Some {
        open_session_error(sessions, id)
    } else if !(now > sessions[id as int].deadline) {
        Some(EscrowError::DeadlineNotReached)
    } else {
        None
    }
}

/// The session with only its status changed.
pub open spec fn with_status(s: Session, status: SessionStatus) -> Session {
    Session { status, ..s }
}

/// Peer-to-peer escrow for mentoring sessions paid in $ECT. A student opens a session
/// and locks the payment; the student's confirmation releases it to the mentor, while a
/// session left unconfirmed past its deadline can be expired, refunding the student; a
/// dispute is settled by the owner in favour of either party.
pub struct EctEscrow {
    owner: Address,
    ect_token_id: Vec<u8>,
    sessions: Vec<Session>,
}

impl EctEscrow {
    pub closed spec fn owner_spec(&self) -> Address {
        self.owner
    }

    pub closed spec fn token_id_spec(&self) -> Seq<u8> {
        self.ect_token_id@
    }

    /// Sessions by id: session `i` is the `i`-th one created.
    pub closed spec fn sessions_spec(&self) -> Seq<Session> {
        self.sessions@
    }

    /// A fresh escrow deployed by `owner`: no token set, no session.
    pub fn init(owner: Address) -> (r: Self)
        ensures
            r.owner_spec() == owner,
            r.token_id_spec() == Seq::<u8>::empty(),
            r.sessions_spec() == Seq::<Session>::empty(),
    {
        EctEscrow { owner, ect_token_id: Vec::new(), sessions: Vec::new() }
    }

    /// `setEctTokenId`: the owner sets the accepted token.
    pub fn set_ect_token_id(&mut self, caller: Address, token_id: Vec<u8>) -> (r: Result<
        (),
        EscrowError,
    >)
        ensures
            caller@ != old(self).owner_spec()@ ==> r == Err::<(), EscrowError>(
                EscrowError::OnlyOwner,
            ) && *final(self) == *old(self),
            caller@ == old(self).owner_spec()@ && !is_valid_esdt_identifier_spec(token_id@) ==> r
                == Err::<(), EscrowError>(EscrowError::InvalidTokenIdentifier) && *final(self)
                == *old(self),
            caller@ == old(self).owner_spec()@ && is_valid_esdt_identifier_spec(token_id@) ==> r
                is Ok && final(self).token_id_spec() == token_id@ && final(self).sessions_spec()
                == old(self).sessions_spec() && final(self).owner_spec() == old(self).owner_spec(),
    {
        if !array32_eq(&caller, &self.owner) {
            return Err(EscrowError::OnlyOwner);
        }
        if !validate_token_identifier(token_id.as_slice()) {
            return Err(EscrowError::InvalidTokenIdentifier);
        }
        self.ect_token_id = token_id;
        Ok(())
    }

    /// `createSession`: the caller (the student) locks the single $ECT transfer it
    /// attaches, for a session with `mentor` ending at `deadline_timestamp`; returns the
    /// new session's id and the `session_created` event.
    pub fn create_session(
        &mut self,
        caller: Address,
        now: u64,
        transfers: &[Payment],
        mentor: Address,
        deadline_timestamp: u64,
    ) -> (r: Result<(u64, EscrowEvent), EscrowError>)
        requires
            old(self).sessions_spec().len() < u64::MAX,
        ensures
            ({
                let err = create_session_error(
                    old(self).token_id_spec(),
                    caller,
                    now,
                    transfers@,
                    mentor,
                    deadline_timestamp,
                );
                &&& err matches Some(e) ==> r == Err::<(u64, EscrowEvent), EscrowError>(e) && *final(self)
                    == *old(self)
                &&& err is None ==> {
                    &&& r == Ok::<(u64, EscrowEvent), EscrowError>(
                        (
                            old(self).sessions_spec().len() as u64,
                            EscrowEvent::SessionCreated {
                                id: old(self).sessions_spec().len() as u64,
                                student: caller,
                                mentor,
                                deadline: deadline_timestamp,
                                amount: transfers@[0].amount,
                            },
                        ),
                    )
                    &&& final(self).sessions_spec() == old(self).sessions_spec().push(
                        Session {
                            student: caller,
                            mentor,
                            amount: transfers@[0].amount,
                            deadline: deadline_timestamp,
                            status: SessionStatus::Open,
                            created_at: now,
                        },
                    )
                    &&& final(self).token_id_spec() == old(self).token_id_spec()
                    &&& final(self).owner_spec() == old(self).owner_spec()
                    &&& locked_total(final(self).sessions_spec()) == locked_total(
                        old(self).sessions_spec(),
                    ) + transfers@[0].amount
                }
            }),
    {
        if array32_eq(&caller, &mentor) {
            return Err(EscrowError::SameStudentAndMentor);
        }
        if !(deadline_timestamp > 60 && deadline_timestamp - 60 > now) {
            return Err(EscrowError::DeadlineTooSoon);
        }
        if transfers.len() != 1 {
            return Err(EscrowError::IncorrectNumberOfTransfers);
        }
        let payment = &transfers[0];
        if !crate::bytes::bytes_eq(payment.token_id.as_slice(), self.ect_token_id.as_slice()) {
            return Err(EscrowError::WrongPaymentToken);
        }
        if payment.amount == 0 {
            return Err(EscrowError::ZeroAmount);
        }
        let id = self.sessions.len() as u64;
        let session = Session {
            student: caller,
            mentor,
            amount: payment.amount,
            deadline: deadline_timestamp,
            status: SessionStatus::Open,
            created_at: now,
        };
        proof {
            lemma_locked_total_push(self.sessions@, session);
        }
        self.sessions.push(session);
        Ok(
            (
                id,
                EscrowEvent::SessionCreated {
                    id,
                    student: caller,
                    mentor,
                    deadline: deadline_timestamp,
                    amount: payment.amount,
                },
            ),
        )
    }

    /// Checks that session `id` exists and is open; returns its position.
    fn check_open(&self, id: u64) -> (r: Result<usize, EscrowError>)
        ensures
            open_session_error(self.sessions@, id) matches Some(e) ==> r == Err::<
                usize,
                EscrowError,
            >(e),
            open_session_error(self.sessions@, id) is None ==> (r matches Ok(i) && i as int
                == id as int),
    {
        let n = self.sessions.len();
        if id >= n as u64 {
            return Err(EscrowError::SessionNotFound);
        }
        let i = id as usize;
        if self.sessions[i].status != SessionStatus::Open {
            return Err(EscrowError::SessionNotOpen);
        }
        Ok(i)
    }

    /// Sets the status of session `id` and pays its amount to `to` in the configured token.
    fn settle(&mut self, i: usize, to: Address, status: SessionStatus) -> (t: Transfer)
        requires
            i < old(self).sessions@.len(),
            holds_funds(old(self).sessions@[i as int].status),
            !holds_funds(status),
        ensures
            final(self).sessions@ == old(self).sessions@.update(
                i as int,
                with_status(old(self).sessions@[i as int], status),
            ),
            final(self).owner == old(self).owner,
            final(self).ect_token_id@ == old(self).ect_token_id@,
            t.to == to,
            t.token_id@ == old(self).ect_token_id@,
            t.nonce == 0,
            t.amount == old(self).sessions@[i as int].amount,
            locked_total(final(self).sessions@) == locked_total(old(self).sessions@) - t.amount,
    {
        let mut session = self.sessions[i];
        session.status = status;
        proof {
            lemma_locked_total_update(self.sessions@, i as int, session);
        }
        self.sessions.set(i, session);
        Transfer {
            to,
            token_id: copy_bytes(self.ect_token_id.as_slice()),
            nonce: 0,
            amount: session.amount,
        }
    }

    /// `confirmCompletion`: the student confirms session `id`; its payment goes to the
    /// mentor.
    pub fn confirm_completion(&mut self, caller: Address, id: u64) -> (r: Result<
        (Transfer, EscrowEvent),
        EscrowError,
    >)
        ensures
            confirm_error(old(self).sessions_spec(), caller, id) matches Some(e) ==> r matches Err(
                x,
            ) && x == e && *final(self) == *old(self),
            confirm_error(old(self).sessions_spec(), caller, id) is None ==> (r matches Ok((t, ev)) && {
                let s = old(self).sessions_spec()[id as int];
                &&& ev == EscrowEvent::SessionCompleted { id, student: s.student, mentor: s.mentor }
                &&& final(self).sessions_spec() == old(self).sessions_spec().update(
                    id as int,
                    with_status(s, SessionStatus::Completed),
                )
                &&& final(self).token_id_spec() == old(self).token_id_spec()
                &&& final(self).owner_spec() == old(self).owner_spec()
                &&& t.to == s.mentor && t.amount == s.amount && t.nonce == 0
                &&& t.token_id@ == old(self).token_id_spec()
                &&& locked_total(final(self).sessions_spec()) == locked_total(
                    old(self).sessions_spec(),
                ) - s.amount
            }),
    {
        let i = match self.check_open(id) {
            Err(e) => {
                return Err(e);
            },
            Ok(i) => i,
        };
        let mentor = self.sessions[i].mentor;
        if !array32_eq(&caller, &self.sessions[i].student) {
            return Err(EscrowError::NotStudent);
        }
        let student = self.sessions[i].student;
        let t = self.settle(i, mentor, SessionStatus::Completed);
        Ok((t, EscrowEvent::SessionCompleted { id, student, mentor }))
    }

    /// `disputeSession`: the student or the mentor disputes open session `id`, giving
    /// `reason`, which the `session_disputed` event carries.
    pub fn dispute_session(&mut self, caller: Address, id: u64, reason: &[u8]) -> (r: Result<
        EscrowEvent,
        EscrowError,
    >)
        ensures
            dispute_error(old(self).sessions_spec(), caller, id) matches Some(e) ==> r matches Err(
                x,
            ) && x == e && *final(self) == *old(self),
            dispute_error(old(self).sessions_spec(), caller, id) is None ==> {
                &&& r matches Ok(EscrowEvent::SessionDisputed { id: i, initiator, reason: why })
                    && i == id && initiator == caller && why@ == reason@
                &&& final(self).sessions_spec() == old(self).sessions_spec().update(
                    id as int,
                    with_status(old(self).sessions_spec()[id as int], SessionStatus::Disputed),
                )
                &&& final(self).token_id_spec() == old(self).token_id_spec()
                &&& final(self).owner_spec() == old(self).owner_spec()
                &&& locked_total(final(self).sessions_spec()) == locked_total(
                    old(self).sessions_spec(),
                )
            },
    {
        let i = match self.check_open(id) {
            Err(e) => {
                return Err(e);
            },
            Ok(i) => i,
        };
        let mut session = self.sessions[i];
        if !array32_eq(&caller, &session.student) && !array32_eq(&caller, &session.mentor) {
            return Err(EscrowError::NotParty);
        }
        session.status = SessionStatus::Disputed;
        proof {
            lemma_locked_total_update(self.sessions@, i as int, session);
        }
        self.sessions.set(i, session);
        Ok(EscrowEvent::SessionDisputed { id, initiator: caller, reason: copy_bytes(reason) })
    }

    /// `resolveDispute`: the owner settles disputed session `id`, paying `winner` (the
    /// student or the mentor).
    pub fn resolve_dispute(&mut self, caller: Address, id: u64, winner: Address) -> (r: Result<
        (Transfer, EscrowEvent),
        EscrowError,
    >)
        ensures
            resolve_error(old(self).owner_spec(), old(self).sessions_spec(), caller, id, winner) matches Some(
                e,
            ) ==> r matches Err(x) && x == e && *final(self) == *old(self),
            resolve_error(old(self).owner_spec(), old(self).sessions_spec(), caller, id, winner) is None
                ==> (r matches Ok((t, ev)) && {
                let s = old(self).sessions_spec()[id as int];
                &&& ev == EscrowEvent::SessionResolved { id, winner }
                &&& final(self).sessions_spec() == old(self).sessions_spec().update(
                    id as int,
                    with_status(s, SessionStatus::Completed),
                )
                &&& final(self).token_id_spec() == old(self).token_id_spec()
                &&& final(self).owner_spec() == old(self).owner_spec()
                &&& t.to == winner && t.amount == s.amount && t.nonce == 0
                &&& t.token_id@ == old(self).token_id_spec()
                &&& locked_total(final(self).sessions_spec()) == locked_total(
                    old(self).sessions_spec(),
                ) - s.amount
            }),
    {
        if !array32_eq(&caller, &self.owner) {
            return Err(EscrowError::OnlyOwner);
        }
        let n = self.sessions.len();
        if id >= n as u64 {
            return Err(EscrowError::SessionNotFound);
        }
        let i = id as usize;
        if self.sessions[i].status != SessionStatus::Disputed {
            return Err(EscrowError::SessionNotDisputed);
        }
        if !array32_eq(&winner, &self.sessions[i].student) && !array32_eq(
            &winner,
            &self.sessions[i].mentor,
        ) {
            return Err(EscrowError::InvalidWinner);
        }
        let t = self.settle(i, winner, SessionStatus::Completed);
        Ok((t, EscrowEvent::SessionResolved { id, winner }))
    }

    /// `expireSession`: anyone may expire open session `id` once its deadline has
    /// passed; the student, who never confirmed the session, is refunded.
    pub fn expire_session(&mut self, now: u64, id: u64) -> (r: Result<
        (Transfer, EscrowEvent),
        EscrowError,
    >)
        ensures
            expire_error(old(self).sessions_spec(), now, id) matches Some(e) ==> r matches Err(x)
                && x == e && *final(self) == *old(self),
            expire_error(old(self).sessions_spec(), now, id) is None ==> (r matches Ok((t, ev)) && {
                let s = old(self).sessions_spec()[id as int];
                &&& ev == EscrowEvent::SessionExpired { id, released_to: s.student }
                &&& final(self).sessions_spec() == old(self).sessions_spec().update(
                    id as int,
                    with_status(s, SessionStatus::Expired),
                )
                &&& final(self).token_id_spec() == old(self).token_id_spec()
                &&& final(self).owner_spec() == old(self).owner_spec()
                &&& t.to == s.student && t.amount == s.amount && t.nonce == 0
                &&& t.token_id@ == old(self).token_id_spec()
                &&& locked_total(final(self).sessions_spec()) == locked_total(
                    old(self).sessions_spec(),
                ) - s.amount
            }),
    {
        let i = match self.check_open(id) {
            Err(e) => {
                return Err(e);
            },
            Ok(i) => i,
        };
        let student = self.sessions[i].student;
        if !(now > self.sessions[i].deadline) {
            return Err(EscrowError::DeadlineNotReached);
        }
        let t = self.settle(i, student, SessionStatus::Expired);
        Ok((t, EscrowEvent::SessionExpired { id, released_to: student }))
    }

    /// `getSession`: the session stored under `id` (`None` where no session is stored,
    /// on which the contract's view fails).
    pub fn get_session(&self, id: u64) -> (r: Option<Session>)
        ensures
            id < self.sessions_spec().len() ==> r == Some(self.sessions_spec()[id as int]),
            id >= self.sessions_spec().len() ==> r is None,
    {
        let n = self.sessions.len();
        if id < n as u64 {
            Some(self.sessions[id as usize])
        } else {
            None
        }
    }

    /// `getNextSessionId`: the id the next session will get.
    pub fn get_next_session_id(&self) -> (r: u64)
        requires
            self.sessions_spec().len() <= u64::MAX,
        ensures
            r == self.sessions_spec().len(),
    {
        self.sessions.len() as u64
    }

    /// The configured $ECT token identifier (empty until set).
    pub fn ect_token_id(&self) -> (r: &[u8])
        ensures
            r@ == self.token_id_spec(),
    {
        self.ect_token_id.as_slice()
    }
}

/// A settled session (completed or expired) is final: confirming, disputing or
/// expiring it fails because it is no longer open, and resolving it fails too, so no
/// call can pay its amount out a second time.
pub proof fn law_settled_session_is_final(
    owner: Address,
    sessions: Seq<Session>,
    caller: Address,
    now: u64,
    id: u64,
    winner: Address,
)
    requires
        id < sessions.len(),
        !holds_funds(sessions[id as int].status),
    ensures
        confirm_error(sessions, caller, id) == Some(EscrowError::SessionNotOpen),
        dispute_error(sessions, caller, id) == Some(EscrowError::SessionNotOpen),
        expire_error(sessions, now, id) == Some(EscrowError::SessionNotOpen),
        resolve_error(owner, sessions, caller, id, winner) is Some,
{
}

/// The escrow never holds a negative amount: the locked total is the sum of the
/// amounts of the open and disputed sessions, each of which is nonnegative.
pub proof fn law_locked_total_nonnegative(sessions: Seq<Session>)
    ensures
        locked_total(sessions) >= 0,
    decreases sessions.len(),
{
    if sessions.len() > 0 {
        law_locked_total_nonnegative(sessions.drop_last());
    }
}

/// A session's payment leaves the escrow at most once: confirming, resolving and
/// expiring succeed only on a session that still holds its funds, and each leaves it
/// in a state that holds none (which `law_settled_session_is_final` then keeps).
/// Every change of state keeps the session's terms: parties, amount, deadline and
/// creation time.
pub proof fn law_session_pays_out_once(
    owner: Address,
    sessions: Seq<Session>,
    caller: Address,
    now: u64,
    id: u64,
    winner: Address,
    status: SessionStatus,
)
    requires
        id < sessions.len(),
    ensures
        confirm_error(sessions, caller, id) is None ==> holds_funds(sessions[id as int].status),
        expire_error(sessions, now, id) is None ==> holds_funds(sessions[id as int].status),
        resolve_error(owner, sessions, caller, id, winner) is None ==> holds_funds(
            sessions[id as int].status,
        ),
        !holds_funds(SessionStatus::Completed) && !holds_funds(SessionStatus::Expired),
        ({
            let t = with_status(sessions[id as int], status);
            &&& t.student == sessions[id as int].student
            &&& t.mentor == sessions[id as int].mentor
            &&& t.amount == sessions[id as int].amount
            &&& t.deadline == sessions[id as int].deadline
            &&& t.created_at == sessions[id as int].created_at
        }),
{
}

/// The owner settles a disputed session in favour of either party: when the caller is
/// the owner and session `id` is disputed, resolving succeeds exactly when `winner` is
/// the session's student or its mentor, and is refused as an invalid winner otherwise.
pub proof fn law_resolve_for_either_party(
    owner: Address,
    sessions: Seq<Session>,
    id: u64,
    winner: Address,
)
    requires
        id < sessions.len(),
        sessions[id as int].status == SessionStatus::Disputed,
    ensures
        winner@ == sessions[id as int].student@ ==> resolve_error(owner, sessions, owner, id, winner)
            is None,
        winner@ == sessions[id as int].mentor@ ==> resolve_error(owner, sessions, owner, id, winner)
            is None,
        winner@ != sessions[id as int].student@ && winner@ != sessions[id as int].mentor@
            ==> resolve_error(owner, sessions, owner, id, winner) == Some(
            EscrowError::InvalidWinner,
        ),
{
}

/// Either party may dispute an open session: disputing session `id` while it is open
/// succeeds exactly when the caller is its student or its mentor, and anyone else is
/// refused as not a party.
pub proof fn law_dispute_by_either_party(sessions: Seq<Session>, caller: Address, id: u64)
    requires
        id < sessions.len(),
        sessions[id as int].status == SessionStatus::Open,
    ensures
        caller@ == sessions[id as int].student@ ==> dispute_error(sessions, caller, id) is None,
        caller@ == sessions[id as int].mentor@ ==> dispute_error(sessions, caller, id) is None,
        caller@ != sessions[id as int].student@ && caller@ != sessions[id as int].mentor@
            ==> dispute_error(sessions, caller, id) == Some(EscrowError::NotParty),
{
}

} // verus!
