//! The transaction processor: instruction dispatch, the idempotency gate,
//! validation and result shaping, over the ledger's primitives.
//!
//! Every submission is recorded in the transactions store — stamped
//! Completed on success and Failed on any error — and the whole step is
//! specified by [`spec_process`].

use vstd::prelude::*;
use crate::models::Instruction;
use crate::models::InstructionV;
use crate::models::KeyV;
use crate::models::Key;
use crate::models::Transaction;
use crate::models::TransactionV;
use crate::models::TransactionStatus;
use crate::models::TransferInstruction;
use crate::models::keys_view;
use crate::ledger::Ledger;
use crate::ledger::LedgerError;
use crate::ledger::LedgerV;
use crate::ledger::spec_create;
use crate::ledger::spec_deposit;
use crate::ledger::spec_transfer;
use crate::ledger::lemma_transfer_conservation;
use crate::store::TransactionStore;
use crate::store::empty_transaction_map;
use crate::store::transaction_entries_match;
use crate::store::rebuilt_accounts;
use crate::store::rebuilt_transactions;
use crate::models::Account;

verus! {

/// What a processed transaction yields.
#[derive(Debug, Clone, Copy, PartialEq, Eq, Structural)]
pub enum TransactionResult {
    Success,
    AccountCreated(u128),
    Balance(u64),
}

/// Errors the processor surfaces. Ledger errors map one to one:
/// InsufficientFunds and TransactionAlreadyProcessed surface under their own
/// variants, a deposit overflow surfaces as InvalidAmount, and the rest stay
/// wrapped. InvalidAmount also rejects zero-amount deposits and transfers.
#[derive(Debug, Clone, Copy, PartialEq, Eq, Structural)]
pub enum TransactionProcessorError {
    LedgerError(LedgerError),
    TransactionAlreadyProcessed,
    InsufficientFunds,
    InvalidAmount,
}

/// Mathematical state of the processor: the ledger and the record of every
/// submitted transaction.
#[verifier::ext_equal]
pub ghost struct ProcessorV {
    pub ledger: LedgerV,
    pub transactions: Map<u128, TransactionV>,
}

/// How a ledger error of the transfer path surfaces to the caller.
pub open spec fn lifted_transfer_error(e: LedgerError) -> TransactionProcessorError {
    match e {
        LedgerError::InsufficientFunds => TransactionProcessorError::InsufficientFunds,
        LedgerError::TransactionAlreadyProcessed => TransactionProcessorError::TransactionAlreadyProcessed,
        _ => TransactionProcessorError::LedgerError(e),
    }
}

/// State and result of dispatching a transfer: validation, the idempotency
/// gate, the self-transfer no-op policy, then the ledger's transfer.
pub open spec fn spec_process_transfer(
    s: LedgerV,
    tx: u128,
    src: u128,
    dst: u128,
    amount: u64,
) -> (LedgerV, Result<TransactionResult, TransactionProcessorError>) {
    if amount == 0 {
        (s, Err(TransactionProcessorError::InvalidAmount))
    } else if s.processed.contains(tx) {
        (s, Err(TransactionProcessorError::TransactionAlreadyProcessed))
    } else if src == dst {
        (LedgerV { processed: s.processed.insert(tx), ..s }, Ok(TransactionResult::Success))
    } else {
        let stepped = spec_transfer(s, tx, src, dst, amount);
        (
            stepped.0,
            match stepped.1 {
                Ok(_) => Ok(TransactionResult::Success),
                Err(e) => Err(lifted_transfer_error(e)),
            },
        )
    }
}

/// State and result of dispatching an account creation under the drawn id.
pub open spec fn spec_process_create(s: LedgerV, tx: u128, fresh_id: u128, keys: Seq<KeyV>) -> (
    LedgerV,
    Result<TransactionResult, TransactionProcessorError>,
) {
    if s.processed.contains(tx) {
        (s, Err(TransactionProcessorError::TransactionAlreadyProcessed))
    } else {
        let created = spec_create(s, fresh_id, keys);
        (
            LedgerV { processed: created.processed.insert(tx), ..created },
            Ok(TransactionResult::AccountCreated(fresh_id)),
        )
    }
}

/// State and result of dispatching a deposit.
pub open spec fn spec_process_deposit(s: LedgerV, tx: u128, dst: u128, amount: u64) -> (
    LedgerV,
    Result<TransactionResult, TransactionProcessorError>,
) {
    if amount == 0 {
        (s, Err(TransactionProcessorError::InvalidAmount))
    } else if s.processed.contains(tx) {
        (s, Err(TransactionProcessorError::TransactionAlreadyProcessed))
    } else {
        let stepped = spec_deposit(s, dst, amount);
        match stepped.1 {
            Ok(_) => (
                LedgerV { processed: stepped.0.processed.insert(tx), ..stepped.0 },
                Ok(TransactionResult::Success),
            ),
            Err(e) => (
                s,
                if e == LedgerError::ArithmeticOverflow {
                    Err(TransactionProcessorError::InvalidAmount)
                } else {
                    Err(TransactionProcessorError::LedgerError(e))
                },
            ),
        }
    }
}

/// Result of a balance query; the state is never touched and the id is not
/// recorded as processed.
pub open spec fn spec_get_balance(s: LedgerV, account_id: u128) -> Result<
    TransactionResult,
    TransactionProcessorError,
> {
    if s.accounts.contains_key(account_id) {
        Ok(TransactionResult::Balance(s.accounts[account_id].balance))
    } else {
        Err(TransactionProcessorError::LedgerError(LedgerError::AccountNotFound))
    }
}

/// The transaction as recorded after processing: Completed on success,
/// Failed on any error.
pub open spec fn recorded(t: TransactionV, ok: bool) -> TransactionV {
    TransactionV {
        status: if ok {
            TransactionStatus::Completed
        } else {
            TransactionStatus::Failed
        },
        ..t
    }
}

/// One full step of the processor on a submitted transaction. `fresh_id` is
/// the id drawn for a successful account creation and is read by no other
/// branch.
pub open spec fn spec_process(s: ProcessorV, t: TransactionV, fresh_id: u128) -> (
    ProcessorV,
    Result<TransactionResult, TransactionProcessorError>,
) {
    let stepped = match t.instruction {
        InstructionV::Transfer { source_account_id, destination_account_id, amount } => spec_process_transfer(
            s.ledger,
            t.id,
            source_account_id,
            destination_account_id,
            amount,
        ),
        InstructionV::CreateAccount { keys } => spec_process_create(s.ledger, t.id, fresh_id, keys),
        InstructionV::Deposit { destination_account_id, amount } => spec_process_deposit(
            s.ledger,
            t.id,
            destination_account_id,
            amount,
        ),
        InstructionV::GetBalance { account_id } => (s.ledger, spec_get_balance(s.ledger, account_id)),
    };
    (
        ProcessorV {
            ledger: stepped.0,
            transactions: s.transactions.insert(t.id, recorded(t, stepped.1 is Ok)),
        },
        stepped.1,
    )
}

/// The id a successful account creation returned; immaterial for any other
/// result.
pub open spec fn created_id_of(r: Result<TransactionResult, TransactionProcessorError>) -> u128 {
    match r {
        Ok(TransactionResult::AccountCreated(id)) => id,
        _ => 0,
    }
}

/// The instruction carries a positive amount wherever it carries one.
pub open spec fn positive_amount(i: InstructionV) -> bool {
    match i {
        InstructionV::Transfer { amount, .. } => amount > 0,
        InstructionV::Deposit { amount, .. } => amount > 0,
        _ => true,
    }
}

/// Idempotency: a state-changing instruction with a positive amount whose
/// transaction id is already processed fails with
/// TransactionAlreadyProcessed and leaves the ledger unchanged; only the
/// transaction record is re-stamped Failed.
pub proof fn lemma_process_idempotent(s: ProcessorV, t: TransactionV, fresh_id: u128)
    requires
        s.ledger.processed.contains(t.id),
        !(t.instruction is GetBalance),
        positive_amount(t.instruction),
    ensures
        spec_process(s, t, fresh_id).0.ledger == s.ledger,
        spec_process(s, t, fresh_id).1 == Err::<TransactionResult, TransactionProcessorError>(
            TransactionProcessorError::TransactionAlreadyProcessed,
        ),
{
}

/// A successful state-changing instruction marks its transaction id
/// processed. Together with the idempotency lemma: of n submissions of the
/// same id, only the first can change the ledger; every later one fails
/// with TransactionAlreadyProcessed.
pub proof fn lemma_process_success_marks_processed(s: ProcessorV, t: TransactionV, fresh_id: u128)
    requires
        !(t.instruction is GetBalance),
        spec_process(s, t, fresh_id).1 is Ok,
    ensures
        spec_process(s, t, fresh_id).0.ledger.processed.contains(t.id),
{
}

/// A balance query never mutates the ledger and never closes the
/// idempotency gate.
pub proof fn lemma_get_balance_pure(s: ProcessorV, t: TransactionV, fresh_id: u128)
    requires
        t.instruction is GetBalance,
    ensures
        spec_process(s, t, fresh_id).0.ledger == s.ledger,
{
}

/// Conservation through the processor: a transfer that succeeds between
/// distinct accounts moves `amount` from source to destination, keeps the
/// sum of the two balances, and touches no other account.
pub proof fn lemma_process_conservation(
    s: ProcessorV,
    t: TransactionV,
    fresh_id: u128,
    src: u128,
    dst: u128,
    amount: u64,
)
    requires
        t.instruction == (InstructionV::Transfer {
            source_account_id: src,
            destination_account_id: dst,
            amount,
        }),
        src != dst,
        spec_process(s, t, fresh_id).1 is Ok,
    ensures
        ({
            let pre = s.ledger.accounts;
            let post = spec_process(s, t, fresh_id).0.ledger.accounts;
            &&& post[src].balance + post[dst].balance == pre[src].balance + pre[dst].balance
            &&& post[src].balance == pre[src].balance - amount
            &&& post[dst].balance == pre[dst].balance + amount
            &&& forall|id: u128|
                id != src && id != dst ==> #[trigger] post.contains_key(id) == pre.contains_key(id)
                    && (pre.contains_key(id) ==> post[id] == pre[id])
        }),
{
    lemma_transfer_conservation(s.ledger, t.id, src, dst, amount);
}

/// Non-negativity through the processor: a transfer that would overdraw
/// the source fails with InsufficientFunds and leaves the whole ledger
/// unchanged.
pub proof fn lemma_process_insufficient_funds(
    s: ProcessorV,
    t: TransactionV,
    fresh_id: u128,
    src: u128,
    dst: u128,
    amount: u64,
)
    requires
        t.instruction == (InstructionV::Transfer {
            source_account_id: src,
            destination_account_id: dst,
            amount,
        }),
        src != dst,
        amount > 0,
        !s.ledger.processed.contains(t.id),
        s.ledger.accounts.contains_key(src),
        s.ledger.accounts.contains_key(dst),
        s.ledger.accounts[src].balance < amount,
    ensures
        spec_process(s, t, fresh_id).0.ledger == s.ledger,
        spec_process(s, t, fresh_id).1 == Err::<TransactionResult, TransactionProcessorError>(
            TransactionProcessorError::InsufficientFunds,
        ),
{
}

/// The processor: dispatches instructions against the ledger and records
/// every submission.
pub struct TransactionProcessor {
    ledger: Ledger,
    transactions: TransactionStore,
}

impl View for TransactionProcessor {
    type V = ProcessorV;

    closed spec fn view(&self) -> ProcessorV {
        ProcessorV { ledger: self.ledger@, transactions: self.transactions@ }
    }
}

impl TransactionProcessor {
    pub closed spec fn wf(&self) -> bool {
        self.ledger.wf() && self.transactions.wf()
    }

    /// A processor over the given ledger, with no transaction recorded yet.
    pub fn new(ledger: Ledger) -> (p: Self)
        requires
            ledger.wf(),
        ensures
            p.wf(),
            p@.ledger == ledger@,
            p@.transactions == empty_transaction_map(),
    {
        TransactionProcessor { ledger, transactions: TransactionStore::new() }
    }

    /// Read access to the ledger.
    pub fn ledger(&self) -> (r: &Ledger)
        ensures
            r@ == self@.ledger,
            self.wf() ==> r.wf(),
    {
        &self.ledger
    }

    /// A detached copy of the recorded transaction under `id`, if any.
    pub fn get_transaction(&self, id: u128) -> (r: Option<Transaction>)
        requires
            self.wf(),
        ensures
            r matches Some(t) ==> self@.transactions.contains_key(id) && t@
                == self@.transactions[id],
            r is None ==> !self@.transactions.contains_key(id),
    {
        self.transactions.get_clone(id)
    }

    /// A coherent read pass over all recorded transactions, for
    /// snapshotting.
    pub fn export_transactions(&self) -> (r: Vec<Transaction>)
        requires
            self.wf(),
        ensures
            transaction_entries_match(r@.map_values(|t: Transaction| t@), self@.transactions),
    {
        self.transactions.export()
    }

    /// Rebuilds a processor from snapshot listings, adopting the loaded
    /// containers.
    pub fn restore(
        accounts: &Vec<Account>,
        transactions: &Vec<Transaction>,
        processed_ids: &Vec<u128>,
    ) -> (p: Self)
        ensures
            p.wf(),
            p@.ledger.accounts == rebuilt_accounts(accounts@.map_values(|a: Account| a@)),
            p@.ledger.processed == processed_ids@.to_set(),
            p@.transactions == rebuilt_transactions(transactions@.map_values(|t: Transaction| t@)),
    {
        let ledger = Ledger::restore(accounts, processed_ids);
        let ghost entries = transactions@.map_values(|t: Transaction| t@);
        let mut store = TransactionStore::new();
        let n = transactions.len();
        for i in 0..n
            invariant
                n == transactions@.len(),
                entries == transactions@.map_values(|t: Transaction| t@),
                store.wf(),
                store@ == rebuilt_transactions(entries.subrange(0, i as int)),
        {
            let t = transactions[i].clone();
            store.insert(t);
            proof {
                let sub1 = entries.subrange(0, i + 1);
                assert(sub1.drop_last() =~= entries.subrange(0, i as int));
                assert(sub1.last() == entries[i as int]);
                assert(store@ =~= rebuilt_transactions(sub1));
            }
        }
        proof {
            assert(entries.subrange(0, n as int) =~= entries);
        }
        TransactionProcessor { ledger, transactions: store }
    }

    fn process_transfer(&mut self, transaction_id: u128, instruction: TransferInstruction) -> (r:
        Result<TransactionResult, TransactionProcessorError>)
        requires
            old(self).wf(),
        ensures
            final(self).wf(),
            final(self)@.transactions == old(self)@.transactions,
            final(self)@.ledger == spec_process_transfer(
                old(self)@.ledger,
                transaction_id,
                instruction.source_account_id,
                instruction.destination_account_id,
                instruction.amount,
            ).0,
            r == spec_process_transfer(
                old(self)@.ledger,
                transaction_id,
                instruction.source_account_id,
                instruction.destination_account_id,
                instruction.amount,
            ).1,
    {
        if instruction.amount == 0 {
            return Err(TransactionProcessorError::InvalidAmount);
        }
        let processed = match self.ledger.is_transaction_processed(transaction_id) {
            Ok(b) => b,
            Err(_) => false,
        };
        if processed {
            return Err(TransactionProcessorError::TransactionAlreadyProcessed);
        }
        if instruction.source_account_id == instruction.destination_account_id {
            // Self-transfer policy: a no-op commit — mark the id processed,
            // succeed, touch no balance.
            let _ = self.ledger.mark_transaction_processed(transaction_id);
            proof {
                assert(self@.ledger =~= spec_process_transfer(
                    old(self)@.ledger,
                    transaction_id,
                    instruction.source_account_id,
                    instruction.destination_account_id,
                    instruction.amount,
                ).0);
            }
            return Ok(TransactionResult::Success);
        }
        match self.ledger.transfer(
            transaction_id,
            instruction.source_account_id,
            instruction.destination_account_id,
            instruction.amount,
        ) {
            Ok(_) => Ok(TransactionResult::Success),
            Err(LedgerError::InsufficientFunds) => Err(TransactionProcessorError::InsufficientFunds),
            Err(LedgerError::TransactionAlreadyProcessed) => Err(
                TransactionProcessorError::TransactionAlreadyProcessed,
            ),
            Err(e) => Err(TransactionProcessorError::LedgerError(e)),
        }
    }

    fn process_create_account(&mut self, transaction_id: u128, keys: Vec<Key>) -> (r: Result<
        TransactionResult,
        TransactionProcessorError,
    >)
        requires
            old(self).wf(),
        ensures
            final(self).wf(),
            final(self)@.transactions == old(self)@.transactions,
            final(self)@.ledger == spec_process_create(
                old(self)@.ledger,
                transaction_id,
                created_id_of(r),
                keys_view(keys@),
            ).0,
            r == spec_process_create(
                old(self)@.ledger,
                transaction_id,
                created_id_of(r),
                keys_view(keys@),
            ).1,
    {
        let processed = match self.ledger.is_transaction_processed(transaction_id) {
            Ok(b) => b,
            Err(_) => false,
        };
        if processed {
            return Err(TransactionProcessorError::TransactionAlreadyProcessed);
        }
        let ghost keys_v = keys_view(keys@);
        let created_account_id = match self.ledger.create_account(keys) {
            Ok(id) => id,
            Err(_) => 0,
        };
        let _ = self.ledger.mark_transaction_processed(transaction_id);
        let r = Ok(TransactionResult::AccountCreated(created_account_id));
        proof {
            assert(self@.ledger =~= spec_process_create(
                old(self)@.ledger,
                transaction_id,
                created_account_id,
                keys_v,
            ).0);
        }
        r
    }

    fn process_deposit(&mut self, transaction_id: u128, destination_account_id: u128, amount: u64) -> (r: Result<
        TransactionResult,
        TransactionProcessorError,
    >)
        requires
            old(self).wf(),
        ensures
            final(self).wf(),
            final(self)@.transactions == old(self)@.transactions,
            final(self)@.ledger == spec_process_deposit(
                old(self)@.ledger,
                transaction_id,
                destination_account_id,
                amount,
            ).0,
            r == spec_process_deposit(
                old(self)@.ledger,
                transaction_id,
                destination_account_id,
                amount,
            ).1,
    {
        if amount == 0 {
            return Err(TransactionProcessorError::InvalidAmount);
        }
        let processed = match self.ledger.is_transaction_processed(transaction_id) {
            Ok(b) => b,
            Err(_) => false,
        };
        if processed {
            return Err(TransactionProcessorError::TransactionAlreadyProcessed);
        }
        match self.ledger.deposit_into_account(destination_account_id, amount) {
            Ok(_) => {
                let _ = self.ledger.mark_transaction_processed(transaction_id);
                proof {
                    assert(self@.ledger =~= spec_process_deposit(
                        old(self)@.ledger,
                        transaction_id,
                        destination_account_id,
                        amount,
                    ).0);
                }
                Ok(TransactionResult::Success)
            },
            Err(LedgerError::ArithmeticOverflow) => Err(TransactionProcessorError::InvalidAmount),
            Err(e) => Err(TransactionProcessorError::LedgerError(e)),
        }
    }

    fn get_balance(&self, account_id: u128) -> (r: Result<
        TransactionResult,
        TransactionProcessorError,
    >)
        requires
            self.wf(),
        ensures
            r == spec_get_balance(self@.ledger, account_id),
    {
        match self.ledger.get_account(account_id) {
            Ok(account) => Ok(TransactionResult::Balance(account.balance)),
            Err(_) => Err(TransactionProcessorError::LedgerError(LedgerError::AccountNotFound)),
        }
    }

    /// Processes one submitted transaction: dispatches on the instruction,
    /// and records the submission, stamped Completed on success and Failed
    /// on any error.
    pub fn process_transaction(&mut self, transaction: Transaction) -> (r: Result<
        TransactionResult,
        TransactionProcessorError,
    >)
        requires
            old(self).wf(),
        ensures
            final(self).wf(),
            final(self)@ == spec_process(old(self)@, transaction@, created_id_of(r)).0,
            r == spec_process(old(self)@, transaction@, created_id_of(r)).1,
    {
        let ghost t_view = transaction@;
        let transaction_id = transaction.id;
        let r = match &transaction.instruction {
            Instruction::Transfer(t) => self.process_transfer(transaction_id, *t),
            Instruction::CreateAccount(c) => {
                let keys = c.keys.clone();
                proof {
                    assert(keys@ =~= c.keys@);
                }
                self.process_create_account(transaction_id, keys)
            },
            Instruction::Deposit(d) => self.process_deposit(
                transaction_id,
                d.destination_account_id,
                d.amount,
            ),
            Instruction::GetBalance(g) => self.get_balance(g.account_id),
        };
        let mut record = transaction;
        record.status = if r.is_ok() {
            TransactionStatus::Completed
        } else {
            TransactionStatus::Failed
        };
        proof {
            assert(record@ =~= recorded(t_view, r is Ok));
        }
        self.transactions.insert(record);
        proof {
            assert(self@ =~= spec_process(old(self)@, t_view, created_id_of(r)).0);
        }
        r
    }
}

} // verus!
