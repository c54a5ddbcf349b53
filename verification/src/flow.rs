//! The bank-authorization state machine: create a requisition, surface its
//! consent URL, then match the callback's session ref against the
//! requisition id — the only integrity check the redirect carries.

use vstd::prelude::*;

verus! {

/// Failures of the bank-authorization flow.
#[derive(Debug, PartialEq, Eq, Clone, Copy)]
pub enum FlowError {
    /// Waiting for consent while no requisition is in flight.
    NoRequisition,
    /// The callback's session ref is not the in-flight requisition's id:
    /// a hard stop, never retried.
    RefMismatch,
}

/// A created requisition as the flow tracks and persists it: the remote id
/// and the creation instant (unix seconds).
#[derive(Debug)]
pub struct BankRequisitionState {
    pub requisition_id: String,
    pub created_at: i64,
}

/// The state a completed authorization persists for reuse across runs.
#[derive(Debug)]
pub struct BankAuthState {
    pub bank_id: String,
    pub requisition: BankRequisitionState,
}

/// The fields of the remote reply to a requisition creation that the flow
/// consumes: the requisition id, its creation instant, and the consent URL.
#[derive(Debug)]
pub struct BankRequisitionReply {
    pub id: String,
    pub created: i64,
    pub link: String,
}

/// The body of a requisition-creation request: where the bank redirects
/// after consent, which institution to link, and the consent page language.
#[derive(Debug)]
pub struct BankRequisitionRequest {
    pub redirect: String,
    pub institution_id: String,
    pub user_language: String,
}

/// The local callback address; it is also the redirect target registered
/// with the remote API, so the two agree by construction.
pub open spec fn redirect_url() -> Seq<char> {
    "http://127.0.0.1:1337"@
}

/// The flow's progress: not yet started, requisition in flight, completed,
/// or failed on a callback mismatch.
pub enum FlowPhase {
    Created,
    RequisitionStarted(BankRequisitionState),
    Completed(BankRequisitionState),
    Failed,
}

/// One bank-authorization flow: the bearer token it acts under, the target
/// institution, and its progress.
pub struct Authorize {
    pub token: String,
    pub bank_id: String,
    pub phase: FlowPhase,
}

impl BankAuthState {
    /// Bundle a completed requisition with its institution for persistence.
    pub fn new(bank_id: &String, requisition: &BankRequisitionState) -> (r: BankAuthState)
        ensures
            r.bank_id == bank_id,
            r.requisition.requisition_id == requisition.requisition_id,
            r.requisition.created_at == requisition.created_at,
    {
        BankAuthState {
            bank_id: bank_id.clone(),
            requisition: BankRequisitionState {
                requisition_id: requisition.requisition_id.clone(),
                created_at: requisition.created_at,
            },
        }
    }
}

impl Authorize {
    /// A flow that has not started: no requisition yet.
    pub fn new(token: &String, bank_id: &String) -> (r: Authorize)
        ensures
            r.token == token,
            r.bank_id == bank_id,
            r.phase is Created,
    {
        Authorize { token: token.clone(), bank_id: bank_id.clone(), phase: FlowPhase::Created }
    }

    /// The requisition-creation request this flow sends: the fixed local
    /// redirect, the flow's institution, and English consent pages.
    pub fn start_request(&self) -> (r: BankRequisitionRequest)
        ensures
            r.redirect@ == redirect_url(),
            r.institution_id == self.bank_id,
            r.user_language@ == "EN"@,
    {
        BankRequisitionRequest {
            redirect: String::from_str("http://127.0.0.1:1337"),
            institution_id: self.bank_id.clone(),
            user_language: String::from_str("EN"),
        }
    }

    /// Record the created requisition and hand back its consent URL: the
    /// flow moves to `RequisitionStarted` whatever it was doing before.
    pub fn start(&mut self, reply: BankRequisitionReply) -> (link: String)
        ensures
            final(self).token == old(self).token,
            final(self).bank_id == old(self).bank_id,
            final(self).phase matches FlowPhase::RequisitionStarted(req) && req.requisition_id
                == reply.id && req.created_at == reply.created,
            link == reply.link,
    {
        self.phase = FlowPhase::RequisitionStarted(
            BankRequisitionState { requisition_id: reply.id, created_at: reply.created },
        );
        reply.link
    }

    /// Whether a requisition is in flight, so a caller knows to run the
    /// callback listener at all; in any other phase waiting must fail
    /// `NoRequisition` without listening.
    pub fn has_requisition(&self) -> (r: bool)
        ensures
            r == (self.phase is RequisitionStarted),
    {
        match &self.phase {
            FlowPhase::RequisitionStarted(_) => true,
            _ => false,
        }
    }

    /// Judge the callback: with a requisition in flight, a session ref equal
    /// to its id (by exact string equality) completes the flow and yields
    /// the state to persist; any other ref fails the flow for good; with no
    /// requisition in flight nothing changes and `NoRequisition` comes back.
    pub fn wait_callback(&mut self, session_ref: &String) -> (r: Result<
        BankRequisitionState,
        FlowError,
    >)
        ensures
            final(self).token == old(self).token,
            final(self).bank_id == old(self).bank_id,
            old(self).phase matches FlowPhase::RequisitionStarted(req) ==> {
                if req.requisition_id@ == session_ref@ {
                    &&& r matches Ok(st) && st.requisition_id == req.requisition_id
                        && st.created_at == req.created_at
                    &&& final(self).phase matches FlowPhase::Completed(c) && c.requisition_id
                        == req.requisition_id && c.created_at == req.created_at
                } else {
                    &&& r == Err::<BankRequisitionState, _>(FlowError::RefMismatch)
                    &&& final(self).phase is Failed
                }
            },
            !(old(self).phase is RequisitionStarted) ==> r == Err::<BankRequisitionState, _>(
                FlowError::NoRequisition,
            ) && *final(self) == *old(self),
    {
        match &self.phase {
            FlowPhase::RequisitionStarted(req) => {
                if req.requisition_id == *session_ref {
                    let st = BankRequisitionState {
                        requisition_id: req.requisition_id.clone(),
                        created_at: req.created_at,
                    };
                    let done = BankRequisitionState {
                        requisition_id: req.requisition_id.clone(),
                        created_at: req.created_at,
                    };
                    self.phase = FlowPhase::Completed(done);
                    Ok(st)
                } else {
                    self.phase = FlowPhase::Failed;
                    Err(FlowError::RefMismatch)
                }
            },
            _ => Err(FlowError::NoRequisition),
        }
    }
}

} // verus!
