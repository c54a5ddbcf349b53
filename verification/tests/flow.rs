use ob_nordigen::accounts::AccountDetails;
use ob_nordigen::accounts::AccountInfo;
use ob_nordigen::accounts::AccountMeta;
use ob_nordigen::accounts::Accounts;
use ob_nordigen::flow::Authorize;
use ob_nordigen::flow::BankAuthState;
use ob_nordigen::flow::BankRequisitionReply;
use ob_nordigen::flow::BankRequisitionState;
use ob_nordigen::flow::FlowError;

fn reply(id: &str, created: i64, link: &str) -> BankRequisitionReply {
    BankRequisitionReply {
        id: id.to_string(),
        created,
        link: link.to_string(),
    }
}

#[test]
fn wait_before_start_fails_no_requisition() {
    let mut flow = Authorize::new(&"tok".to_string(), &"bank".to_string());
    assert!(!flow.has_requisition());
    let r = flow.wait_callback(&"req-1".to_string());
    assert_eq!(r.unwrap_err(), FlowError::NoRequisition);
    // still not started: a second wait fails the same way
    assert!(!flow.has_requisition());
    let r2 = flow.wait_callback(&"req-1".to_string());
    assert_eq!(r2.unwrap_err(), FlowError::NoRequisition);
}

#[test]
fn start_returns_consent_url() {
    let mut flow = Authorize::new(&"tok".to_string(), &"bank".to_string());
    let link = flow.start(reply("req-1", 42, "https://consent.example/go"));
    assert_eq!(link, "https://consent.example/go");
    assert!(flow.has_requisition());
}

#[test]
fn matching_ref_completes_flow() {
    let mut flow = Authorize::new(&"tok".to_string(), &"bank".to_string());
    flow.start(reply("req-1", 42, "https://consent.example/go"));
    let st = flow.wait_callback(&"req-1".to_string()).unwrap();
    assert_eq!(st.requisition_id, "req-1");
    assert_eq!(st.created_at, 42);
    // terminal: no requisition is in flight any more
    assert!(!flow.has_requisition());
}

#[test]
fn mismatched_ref_fails_and_does_not_complete() {
    let mut flow = Authorize::new(&"tok".to_string(), &"bank".to_string());
    flow.start(reply("req-1", 42, "https://consent.example/go"));
    let r = flow.wait_callback(&"req-2".to_string());
    assert_eq!(r.unwrap_err(), FlowError::RefMismatch);
    // the flow failed for good; it did not move to a completed state and
    // a matching ref no longer helps
    assert!(!flow.has_requisition());
    let r2 = flow.wait_callback(&"req-1".to_string());
    assert_eq!(r2.unwrap_err(), FlowError::NoRequisition);
}

#[test]
fn prefix_ref_is_a_mismatch() {
    let mut flow = Authorize::new(&"tok".to_string(), &"bank".to_string());
    flow.start(reply("req-1", 42, "https://consent.example/go"));
    let r = flow.wait_callback(&"req-10".to_string());
    assert_eq!(r.unwrap_err(), FlowError::RefMismatch);
}

#[test]
fn start_request_carries_fixed_redirect_and_language() {
    let flow = Authorize::new(&"tok".to_string(), &"my-bank".to_string());
    let req = flow.start_request();
    assert_eq!(req.redirect, "http://127.0.0.1:1337");
    assert_eq!(req.institution_id, "my-bank");
    assert_eq!(req.user_language, "EN");
}

#[test]
fn bank_auth_state_bundles_fields() {
    let st = BankRequisitionState {
        requisition_id: "req-9".to_string(),
        created_at: 7,
    };
    let auth = BankAuthState::new(&"bank-1".to_string(), &st);
    assert_eq!(auth.bank_id, "bank-1");
    assert_eq!(auth.requisition.requisition_id, "req-9");
    assert_eq!(auth.requisition.created_at, 7);
}

#[test]
fn accounts_session_keeps_token_and_requisition() {
    let acc = Accounts::new(&"tok".to_string(), &"req-1".to_string());
    assert_eq!(acc.token, "tok");
    assert_eq!(acc.requisition_id, "req-1");
}

#[test]
fn account_meta_merges_both_replies() {
    let info = AccountInfo {
        id: "acc-1".to_string(),
        created: Some(100),
        last_accessed: None,
        iban: "DE00".to_string(),
        institution_id: "bank-1".to_string(),
    };
    let details = AccountDetails {
        currency: "EUR".to_string(),
        owner_name: Some("A. Owner".to_string()),
        name: None,
        product: Some("Giro".to_string()),
        cash_account_type: None,
    };
    let meta = AccountMeta::merge(info, details);
    assert_eq!(meta.id, "acc-1");
    assert_eq!(meta.created_at, Some(100));
    assert_eq!(meta.accessed_at, None);
    assert_eq!(meta.iban, "DE00");
    assert_eq!(meta.institution_id, "bank-1");
    assert_eq!(meta.owner_name, Some("A. Owner".to_string()));
    assert_eq!(meta.name, None);
    assert_eq!(meta.currency, "EUR");
    assert_eq!(meta.product, Some("Giro".to_string()));
    assert_eq!(meta.account_type, None);
}
