//! The account query layer's data: the handle a query session works from,
//! the rows the remote replies carry, and the merge of the two per-account
//! replies into one metadata row.

use vstd::prelude::*;

verus! {

/// One institution as the remote listing returns it.
#[derive(Debug)]
pub struct BankEntry {
    pub id: String,
    pub name: String,
    pub bic: String,
    pub transaction_total_days: String,
    pub countries: Vec<String>,
    pub logo: String,
}

/// The field of a requisition lookup the account listing consumes.
#[derive(Debug)]
pub struct BankRequisitionsGetReply {
    pub accounts: Vec<String>,
}

/// The fields of an account-info reply the metadata row consumes;
/// timestamps are unix seconds.
#[derive(Debug)]
pub struct AccountInfo {
    pub id: String,
    pub created: Option<i64>,
    pub last_accessed: Option<i64>,
    pub iban: String,
    pub institution_id: String,
}

/// The fields of an account-details reply the metadata row consumes.
#[derive(Debug)]
pub struct AccountDetails {
    pub currency: String,
    pub owner_name: Option<String>,
    pub name: Option<String>,
    pub product: Option<String>,
    pub cash_account_type: Option<String>,
}

/// The merged metadata of one account; timestamps are unix seconds.
#[derive(Debug)]
pub struct AccountMeta {
    pub id: String,
    pub created_at: Option<i64>,
    pub accessed_at: Option<i64>,
    pub iban: String,
    pub institution_id: String,
    pub owner_name: Option<String>,
    pub name: Option<String>,
    pub currency: String,
    pub product: Option<String>,
    pub account_type: Option<String>,
}

/// A debtor account reference within a transaction.
#[derive(Debug)]
pub struct TransactionDebtorAccount {
    pub iban: String,
}

/// An amount with its currency, as the remote API spells it.
#[derive(Debug)]
pub struct TransactionAmount {
    pub currency: String,
    pub amount: String,
}

/// A booked transaction row.
#[derive(Debug)]
pub struct AccountBookedTransaction {
    pub transaction_id: String,
    pub debtor_name: Option<String>,
    pub debtor_account: Option<String>,
    pub transaction_amount: TransactionAmount,
    pub bank_transaction_code: Option<String>,
    pub booking_date: String,
    pub value_date: String,
    pub remittance_information_unstructured: Option<String>,
    pub internal_transaction_id: Option<String>,
}

/// A pending transaction row.
#[derive(Debug)]
pub struct AccountPendingTransaction {
    pub transaction_amount: TransactionAmount,
    pub value_date: String,
    pub remittance_information_unstructured: Option<String>,
}

/// The booked and pending transactions of one account.
#[derive(Debug)]
pub struct AccountTransactions {
    pub booked: Vec<AccountBookedTransaction>,
    pub pending: Vec<AccountPendingTransaction>,
}

/// A query session over the accounts of one requisition: the bearer token
/// and the requisition whose accounts are read.
#[derive(Debug)]
pub struct Accounts {
    pub token: String,
    pub requisition_id: String,
}

impl Accounts {
    /// A query session for the given token and requisition.
    pub fn new(token: &String, req_id: &String) -> (r: Accounts)
        ensures
            r.token == token,
            r.requisition_id == req_id,
    {
        Accounts { token: token.clone(), requisition_id: req_id.clone() }
    }
}

impl AccountMeta {
    /// Merge the info and details replies of one account into its metadata
    /// row, each field taken unchanged from its source.
    pub fn merge(info: AccountInfo, details: AccountDetails) -> (r: AccountMeta)
        ensures
            r.id == info.id,
            r.created_at == info.created,
            r.accessed_at == info.last_accessed,
            r.iban == info.iban,
            r.institution_id == info.institution_id,
            r.owner_name == details.owner_name,
            r.name == details.name,
            r.currency == details.currency,
            r.product == details.product,
            r.account_type == details.cash_account_type,
    {
        AccountMeta {
            id: info.id,
            created_at: info.created,
            accessed_at: info.last_accessed,
            iban: info.iban,
            institution_id: info.institution_id,
            owner_name: details.owner_name,
            name: details.name,
            currency: details.currency,
            product: details.product,
            account_type: details.cash_account_type,
        }
    }
}

} // verus!
