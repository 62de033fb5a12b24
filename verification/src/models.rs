//! Domain data model: accounts, instructions and transactions.
//!
//! Account and transaction identifiers are 128-bit UUID values, carried as
//! `u128`. Timestamps are carried as milliseconds since the Unix epoch.

use vstd::prelude::*;

verus! {

/// A possible identifier attached to an account; purely informational, and
/// fixed at account creation.
#[derive(Debug)]
pub enum Key {
    CPF(String),
    Email(String),
    Phone(String),
    Random(String),
}

/// Mathematical value of a [`Key`]: the same variant over the text it holds.
#[verifier::ext_equal]
pub ghost enum KeyV {
    CPF(Seq<char>),
    Email(Seq<char>),
    Phone(Seq<char>),
    Random(Seq<char>),
}

impl View for Key {
    type V = KeyV;

    open spec fn view(&self) -> KeyV {
        match self {
            Key::CPF(s) => KeyV::CPF(s@),
            Key::Email(s) => KeyV::Email(s@),
            Key::Phone(s) => KeyV::Phone(s@),
            Key::Random(s) => KeyV::Random(s@),
        }
    }
}

impl Clone for Key {
    fn clone(&self) -> (r: Self)
        ensures
            r == *self,
    {
        match self {
            Key::CPF(s) => Key::CPF(s.clone()),
            Key::Email(s) => Key::Email(s.clone()),
            Key::Phone(s) => Key::Phone(s.clone()),
            Key::Random(s) => Key::Random(s.clone()),
        }
    }
}

/// The sequence of key views that a key vector stands for.
pub open spec fn keys_view(keys: Seq<Key>) -> Seq<KeyV> {
    keys.map_values(|k: Key| k@)
}

/// Status a recorded transaction ends in: `Pending` on submission,
/// `Completed` on success, `Failed` on any error.
#[derive(Debug, Clone, Copy, PartialEq, Eq, Structural)]
pub enum TransactionStatus {
    Pending,
    Completed,
    Failed,
}

/// Moves `amount` from the source account to the destination account.
#[derive(Debug, Clone, Copy)]
pub struct TransferInstruction {
    pub source_account_id: u128,
    pub destination_account_id: u128,
    pub amount: u64,
}

/// Creates a fresh account carrying the given keys.
#[derive(Debug)]
pub struct CreateAccountInstruction {
    pub keys: Vec<Key>,
}

impl CreateAccountInstruction {
    pub fn new(keys: Vec<Key>) -> (r: Self)
        ensures
            r.keys == keys,
    {
        CreateAccountInstruction { keys }
    }
}

impl Clone for CreateAccountInstruction {
    fn clone(&self) -> (r: Self)
        ensures
            keys_view(r.keys@) == keys_view(self.keys@),
    {
        let keys = self.keys.clone();
        proof {
            assert(keys@ =~= self.keys@);
        }
        CreateAccountInstruction { keys }
    }
}

/// Adds `amount` to the destination account.
#[derive(Debug, Clone, Copy)]
pub struct DepositInstruction {
    pub destination_account_id: u128,
    pub amount: u64,
}

/// Reads an account's balance; never mutates state.
#[derive(Debug, Clone, Copy)]
pub struct GetBalanceInstruction {
    pub account_id: u128,
}

/// The instruction a transaction carries.
#[derive(Debug)]
pub enum Instruction {
    Transfer(TransferInstruction),
    CreateAccount(CreateAccountInstruction),
    Deposit(DepositInstruction),
    GetBalance(GetBalanceInstruction),
}

/// Mathematical value of an [`Instruction`].
#[verifier::ext_equal]
pub ghost enum InstructionV {
    Transfer { source_account_id: u128, destination_account_id: u128, amount: u64 },
    CreateAccount { keys: Seq<KeyV> },
    Deposit { destination_account_id: u128, amount: u64 },
    GetBalance { account_id: u128 },
}

impl View for Instruction {
    type V = InstructionV;

    open spec fn view(&self) -> InstructionV {
        match self {
            Instruction::Transfer(t) => InstructionV::Transfer {
                source_account_id: t.source_account_id,
                destination_account_id: t.destination_account_id,
                amount: t.amount,
            },
            Instruction::CreateAccount(c) => InstructionV::CreateAccount {
                keys: keys_view(c.keys@),
            },
            Instruction::Deposit(d) => InstructionV::Deposit {
                destination_account_id: d.destination_account_id,
                amount: d.amount,
            },
            Instruction::GetBalance(g) => InstructionV::GetBalance { account_id: g.account_id },
        }
    }
}

impl Clone for Instruction {
    fn clone(&self) -> (r: Self)
        ensures
            r@ == self@,
    {
        match self {
            Instruction::Transfer(t) => Instruction::Transfer(*t),
            Instruction::CreateAccount(c) => Instruction::CreateAccount(c.clone()),
            Instruction::Deposit(d) => Instruction::Deposit(*d),
            Instruction::GetBalance(g) => Instruction::GetBalance(*g),
        }
    }
}

/// Record of a submitted instruction; `id` is the idempotency key.
#[derive(Debug)]
pub struct Transaction {
    pub id: u128,
    pub instruction: Instruction,
    pub status: TransactionStatus,
    pub timestamp: i64,
}

/// Mathematical value of a [`Transaction`].
#[verifier::ext_equal]
pub ghost struct TransactionV {
    pub id: u128,
    pub instruction: InstructionV,
    pub status: TransactionStatus,
    pub timestamp: i64,
}

impl View for Transaction {
    type V = TransactionV;

    open spec fn view(&self) -> TransactionV {
        TransactionV {
            id: self.id,
            instruction: self.instruction@,
            status: self.status,
            timestamp: self.timestamp,
        }
    }
}

impl Clone for Transaction {
    fn clone(&self) -> (r: Self)
        ensures
            r@ == self@,
    {
        Transaction {
            id: self.id,
            instruction: self.instruction.clone(),
            status: self.status,
            timestamp: self.timestamp,
        }
    }
}

/// An account: identity, balance in the smallest monetary unit, informational
/// keys, and the ids of the transactions that touched it.
#[derive(Debug)]
pub struct Account {
    pub uuid: u128,
    pub balance: u64,
    pub keys: Vec<Key>,
    pub transaction_history: Vec<u128>,
}

/// Mathematical value of an [`Account`].
#[verifier::ext_equal]
pub ghost struct AccountV {
    pub uuid: u128,
    pub balance: u64,
    pub keys: Seq<KeyV>,
    pub transaction_history: Seq<u128>,
}

impl View for Account {
    type V = AccountV;

    open spec fn view(&self) -> AccountV {
        AccountV {
            uuid: self.uuid,
            balance: self.balance,
            keys: keys_view(self.keys@),
            transaction_history: self.transaction_history@,
        }
    }
}

/// The view of a zero-balance account fresh from creation.
pub open spec fn fresh_account_view(uuid: u128, keys: Seq<KeyV>) -> AccountV {
    AccountV { uuid, balance: 0, keys, transaction_history: Seq::empty() }
}

impl Account {
    /// A zero-balance account under the given identity, with an empty history.
    pub fn new(uuid: u128, keys: Vec<Key>) -> (r: Self)
        ensures
            r@ == fresh_account_view(uuid, keys_view(keys@)),
    {
        let r = Account { uuid, balance: 0, keys, transaction_history: Vec::new() };
        proof {
            assert(r@ =~= fresh_account_view(uuid, keys_view(r.keys@)));
        }
        r
    }
}

impl Clone for Account {
    fn clone(&self) -> (r: Self)
        ensures
            r@ == self@,
            r.uuid == self.uuid,
            r.balance == self.balance,
    {
        let keys = self.keys.clone();
        let transaction_history = self.transaction_history.clone();
        proof {
            assert(keys@ =~= self.keys@);
            assert(transaction_history@ =~= self.transaction_history@);
        }
        Account { uuid: self.uuid, balance: self.balance, keys, transaction_history }
    }
}

} // verus!
