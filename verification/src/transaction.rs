//! Transactions: intents to move value, carrying an opaque authorization
//! token. The token is a deterministic placeholder, not a signature, and
//! grants no cryptographic authenticity.

use crate::bytes::copy_bytes;
use crate::bytes::dec_of;
use crate::bytes::push_all;
use crate::bytes::spec_dec;
use vstd::prelude::*;

verus! {

/// The mathematical value of a `Transaction`.
#[verifier::ext_equal]
pub struct TransactionView {
    pub sender: Seq<u8>,
    pub recipient: Seq<u8>,
    pub amount: nat,
    pub signature: Seq<u8>,
    pub timestamp: nat,
}

/// An intent to move `amount` from `sender` to `recipient`, stamped with
/// the creation time and an opaque authorization token.
#[derive(Debug)]
pub struct Transaction {
    pub sender: Vec<u8>,
    pub recipient: Vec<u8>,
    pub amount: u64,
    pub signature: Vec<u8>,
    pub timestamp: u64,
}

impl View for Transaction {
    type V = TransactionView;

    open spec fn view(&self) -> TransactionView {
        TransactionView {
            sender: self.sender@,
            recipient: self.recipient@,
            amount: self.amount as nat,
            signature: self.signature@,
            timestamp: self.timestamp as nat,
        }
    }
}

impl DeepView for Transaction {
    type V = TransactionView;

    open spec fn deep_view(&self) -> TransactionView {
        self@
    }
}

/// The authorization token of a transaction: the bytes of
/// `"SIG_" + sender + "_" + timestamp`. Deterministic in `(sender,
/// timestamp)`; carries no cryptographic guarantee.
pub open spec fn sig_of(sender: Seq<u8>, timestamp: nat) -> Seq<u8> {
    seq![83u8, 73u8, 71u8, 95u8] + sender + seq![95u8] + spec_dec(timestamp)
}

impl Transaction {
    /// Constructs the transaction created at time `now`, with its
    /// deterministic authorization token.
    pub fn new(sender: Vec<u8>, recipient: Vec<u8>, amount: u64, now: u64) -> (t: Transaction)
        ensures
            t@ == (TransactionView {
                sender: sender@,
                recipient: recipient@,
                amount: amount as nat,
                signature: sig_of(sender@, now as nat),
                timestamp: now as nat,
            }),
    {
        let mut signature: Vec<u8> = Vec::new();
        signature.push(83);
        signature.push(73);
        signature.push(71);
        signature.push(95);
        push_all(&mut signature, &sender);
        signature.push(95);
        let rendered_now = dec_of(now);
        push_all(&mut signature, &rendered_now);
        proof {
            assert(signature@ =~= sig_of(sender@, now as nat));
        }
        Transaction { sender, recipient, amount, signature, timestamp: now }
    }

    /// A fresh transaction equal in value to this one.
    pub fn duplicate(&self) -> (t: Transaction)
        ensures
            t@ == self@,
    {
        Transaction {
            sender: copy_bytes(&self.sender),
            recipient: copy_bytes(&self.recipient),
            amount: self.amount,
            signature: copy_bytes(&self.signature),
            timestamp: self.timestamp,
        }
    }
}

} // verus!
