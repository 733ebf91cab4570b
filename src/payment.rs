//! Payment evidence: a claimed transfer, checked against the ledger's record
//! of the transaction. Amounts are in micro-units of the token.
use vstd::prelude::*;

verus! {

/// A payer's claim that a transfer was made.
#[derive(Debug, Clone)]
pub struct PaymentProof {
    /// The ledger transaction identifier.
    pub signature: String,
    /// Micro-units claimed.
    pub amount: u64,
    pub sender: String,
    pub recipient: String,
    pub mint: Option<String>,
    pub timestamp: i64,
    pub request_id: String,
}

/// What a service asks to be paid.
#[derive(Debug, Clone)]
pub struct PaymentRequirement {
    /// Micro-units asked for.
    pub amount: u64,
    pub recipient: String,
    pub currency: String,
    pub mint: Option<String>,
    pub expires_at: i64,
    pub request_id: String,
}

/// One token balance of a transaction's record, before or after it ran.
#[derive(Debug, Clone)]
pub struct TokenBalance {
    /// The position of the token account among the transaction's accounts.
    pub account_index: u64,
    pub owner: Option<String>,
    /// Micro-units held.
    pub amount: u64,
}

/// The ledger's record of a transaction.
#[derive(Debug, Clone)]
pub struct LedgerTransaction {
    /// The transaction ran without error.
    pub succeeded: bool,
    pub pre_token_balances: Vec<TokenBalance>,
    pub post_token_balances: Vec<TokenBalance>,
}

/// What the ledger gave back for a transaction identifier.
pub enum LedgerLookup {
    Found(LedgerTransaction),
    /// The ledger has no such transaction.
    Missing,
    /// The ledger could not be reached.
    Unreachable,
}

/// The balance that a token account held before the transaction: that of
/// the last entry for the account, or zero when the account had none (it
/// was created by the transaction).
pub open spec fn balance_before(pre: Seq<TokenBalance>, account: u64) -> int
    decreases pre.len(),
{
    if pre.len() == 0 {
        0
    } else if pre.last().account_index == account {
        pre.last().amount as int
    } else {
        balance_before(pre.drop_last(), account)
    }
}

/// Whether a post-transaction balance belongs to one of the recipients and
/// grew by at least `amount` over the same account's balance before.
pub open spec fn entry_pays(
    post: TokenBalance,
    pre: Seq<TokenBalance>,
    recipient: Seq<char>,
    claimed_recipient: Seq<char>,
    amount: int,
) -> bool {
    &&& post.owner matches Some(o) && (o@ == recipient || o@ == claimed_recipient)
    &&& post.amount - balance_before(pre, post.account_index) >= amount
}

/// Whether the ledger's record confirms the claimed payment: the
/// transaction exists, succeeded, and some balance of the configured
/// recipient, or of the recipient the proof names, grew by at least the
/// claimed amount.
pub open spec fn payment_confirmed(
    lookup: LedgerLookup,
    recipient: Seq<char>,
    proof: PaymentProof,
) -> bool {
    &&& lookup matches LedgerLookup::Found(tx)
    &&& tx.succeeded
    &&& exists|i: int|
        0 <= i < tx.post_token_balances@.len() && entry_pays(
            #[trigger] tx.post_token_balances@[i],
            tx.pre_token_balances@,
            recipient,
            proof.recipient@,
            proof.amount as int,
        )
}

/// Checks payment proofs against the ledger for one configured recipient.
pub struct PaymentVerifier {
    pub rpc_url: String,
    pub payment_recipient: String,
}

#[derive(Debug, Clone, Copy, PartialEq, Eq, Structural)]
pub enum PaymentError {
    /// The ledger could not be reached.
    Unavailable,
}

impl PaymentVerifier {
    pub fn new(rpc_url: String, recipient: String) -> (r: PaymentVerifier)
        ensures
            r.rpc_url == rpc_url,
            r.payment_recipient == recipient,
    {
        PaymentVerifier { rpc_url, payment_recipient: recipient }
    }

    fn balance_before_of(pre: &Vec<TokenBalance>, account: u64) -> (r: u64)
        ensures
            r as int == balance_before(pre@, account),
    {
        let mut found: u64 = 0;
        let mut i: usize = 0;
        while i < pre.len()
            invariant
                i <= pre@.len(),
                found as int == balance_before(pre@.subrange(0, i as int), account),
            decreases pre@.len() - i,
        {
            assert(pre@.subrange(0, i + 1).drop_last() =~= pre@.subrange(0, i as int));
            if pre[i].account_index == account {
                found = pre[i].amount;
            }
            i = i + 1;
        }
        assert(pre@.subrange(0, pre@.len() as int) =~= pre@);
        found
    }

    fn owned_by(balance: &TokenBalance, a: &String, b: &String) -> (r: bool)
        ensures
            r == (balance.owner matches Some(o) && (o@ == a@ || o@ == b@)),
    {
        match &balance.owner {
            Some(o) => *o == *a || *o == *b,
            None => false,
        }
    }

    /// Decides a payment proof on the ledger's answer: `Ok(true)` when the
    /// record confirms the payment, `Ok(false)` when the transaction is
    /// missing, failed, or pays too little, and an error when the ledger
    /// could not be reached.
    pub fn verify_payment(&self, proof: &PaymentProof, lookup: &LedgerLookup) -> (r: Result<
        bool,
        PaymentError,
    >)
        ensures
            lookup is Unreachable ==> r == Err::<bool, _>(PaymentError::Unavailable),
            !(lookup is Unreachable) ==> r == Ok::<_, PaymentError>(
                payment_confirmed(*lookup, self.payment_recipient@, *proof),
            ),
    {
        let tx = match lookup {
            LedgerLookup::Found(tx) => tx,
            LedgerLookup::Missing => return Ok(false),
            LedgerLookup::Unreachable => return Err(PaymentError::Unavailable),
        };
        if !tx.succeeded {
            return Ok(false);
        }
        let mut i: usize = 0;
        while i < tx.post_token_balances.len()
            invariant
                i <= tx.post_token_balances@.len(),
                *lookup == LedgerLookup::Found(*tx),
                tx.succeeded,
                forall|j: int|
                    0 <= j < i ==> !entry_pays(
                        #[trigger] tx.post_token_balances@[j],
                        tx.pre_token_balances@,
                        self.payment_recipient@,
                        proof.recipient@,
                        proof.amount as int,
                    ),
            decreases tx.post_token_balances@.len() - i,
        {
            let post = &tx.post_token_balances[i];
            if Self::owned_by(post, &self.payment_recipient, &proof.recipient) {
                let before = Self::balance_before_of(&tx.pre_token_balances, post.account_index);
                if post.amount >= before && post.amount - before >= proof.amount {
                    assert(entry_pays(
                        tx.post_token_balances@[i as int],
                        tx.pre_token_balances@,
                        self.payment_recipient@,
                        proof.recipient@,
                        proof.amount as int,
                    ));
                    return Ok(true);
                }
            }
            i = i + 1;
        }
        Ok(false)
    }
}

} // verus!
