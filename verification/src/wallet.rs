//! Wallets: a thin balance-tracking layer that produces transactions for
//! the chain. A wallet refuses to spend more than it holds; it validates
//! nothing else.

use crate::bytes::copy_bytes;
use crate::transaction::sig_of;
use crate::transaction::Transaction;
use crate::transaction::TransactionView;
use vstd::prelude::*;

verus! {

/// The mathematical value of a `Wallet`.
#[verifier::ext_equal]
pub struct WalletView {
    pub address: Seq<u8>,
    pub balance: nat,
    pub transactions: Seq<TransactionView>,
}

/// An address with a balance and the history of transactions it has
/// created.
#[derive(Debug)]
pub struct Wallet {
    pub address: Vec<u8>,
    pub balance: u64,
    pub transactions: Vec<Transaction>,
}

impl View for Wallet {
    type V = WalletView;

    open spec fn view(&self) -> WalletView {
        WalletView {
            address: self.address@,
            balance: self.balance as nat,
            transactions: self.transactions.deep_view(),
        }
    }
}

impl Wallet {
    /// A wallet at `address` holding `balance`, with no history yet.
    pub fn new(address: Vec<u8>, balance: u64) -> (w: Wallet)
        ensures
            w@ == (WalletView {
                address: address@,
                balance: balance as nat,
                transactions: Seq::<TransactionView>::empty(),
            }),
    {
        let w = Wallet { address, balance, transactions: Vec::new() };
        proof {
            assert(w@.transactions =~= Seq::<TransactionView>::empty());
        }
        w
    }

    /// Creates a transaction to `recipient` at time `now`, debiting the
    /// balance and recording the transaction, if and only if the amount
    /// does not exceed the balance; otherwise the wallet is unchanged and
    /// no transaction is created.
    pub fn create_transaction(&mut self, recipient: Vec<u8>, amount: u64, now: u64) -> (r: Option<
        Transaction,
    >)
        ensures
            final(self)@.address == old(self)@.address,
            match r {
                Some(t) => {
                    &&& amount <= old(self)@.balance
                    &&& t@ == (TransactionView {
                        sender: old(self)@.address,
                        recipient: recipient@,
                        amount: amount as nat,
                        signature: sig_of(old(self)@.address, now as nat),
                        timestamp: now as nat,
                    })
                    &&& final(self)@.balance == old(self)@.balance - amount
                    &&& final(self)@.transactions == old(self)@.transactions.push(t@)
                },
                None => {
                    &&& amount > old(self)@.balance
                    &&& final(self)@ == old(self)@
                },
            },
    {
        if amount <= self.balance {
            let tx = Transaction::new(copy_bytes(&self.address), recipient, amount, now);
            self.balance = self.balance - amount;
            let recorded = tx.duplicate();
            let ghost history = self@.transactions;
            self.transactions.push(recorded);
            proof {
                assert(self@.transactions =~= history.push(tx@));
            }
            Some(tx)
        } else {
            None
        }
    }
}

} // verus!
