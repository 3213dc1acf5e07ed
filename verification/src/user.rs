//! The account record: balance, credit limit and the ring of recent
//! transactions, with the rules that accept or reject a transaction.

use vstd::arithmetic::div_mod::{lemma_mod_add_multiples_vanish, lemma_small_mod};
use vstd::prelude::*;
use vstd::string::StrSliceExecFns;
use vstd::utf8::encode_utf8;

use crate::transaction::{
    bincode_decoding, bincode_encoding, blank_history, decode_history, empty_history,
    encode_transactions, views_of, CodecError, Transaction, TransactionView, MAX_ENCODED_SIZE,
};

verus! {

/// What became of a transaction that was offered to an account.
#[derive(Clone, Copy, Debug, PartialEq, Eq, Structural)]
pub enum TransactionResult {
    /// The transaction is valid and the balance was updated.
    Accepted,
    /// A debit that would take the balance below `-balance_limit`.
    LimitExceeded,
    /// The kind is neither `"c"` nor `"d"`; holds the first byte of the
    /// kind as it was submitted, or `0` when the kind was empty.
    InvalidTransactionKind(u8),
    /// The description is empty or longer than ten characters.
    InvalidDescription,
}

/// One account as the ledger works on it.
#[derive(Debug, PartialEq, Eq)]
pub struct User {
    /// Primary key, positive.
    pub id: i32,
    /// How far below zero the balance may go.
    pub balance_limit: i32,
    /// Current balance, never below `-balance_limit`.
    pub balance: i32,
    /// Number of live history slots; stops growing at ten.
    pub transactions_count: i32,
    /// Slot the next accepted transaction will be written to.
    pub last_transaction: i32,
    /// The history ring.
    pub transactions: [Transaction; 10],
}

/// A [`User`] as plain mathematics: unbounded integers and the ten slots
/// of the ring as a sequence.
pub struct UserView {
    pub id: int,
    pub balance_limit: int,
    pub balance: int,
    pub transactions_count: int,
    pub last_transaction: int,
    pub transactions: Seq<TransactionView>,
}

impl View for User {
    type V = UserView;

    open spec fn view(&self) -> UserView {
        UserView {
            id: self.id as int,
            balance_limit: self.balance_limit as int,
            balance: self.balance as int,
            transactions_count: self.transactions_count as int,
            last_transaction: self.last_transaction as int,
            transactions: views_of(self.transactions@),
        }
    }
}

/// One account as storage keeps it: the same numbers, and the history as
/// encoded bytes (absent while nothing was ever stored for it).
#[derive(Debug, PartialEq, Eq)]
pub struct UserDb {
    pub id: i32,
    pub balance_limit: i32,
    pub balance: i32,
    pub transactions_count: i32,
    pub last_transaction: i32,
    pub encoded_transactions: Option<Vec<u8>>,
}

/// A [`UserDb`] as plain mathematics.
pub struct UserDbView {
    pub id: int,
    pub balance_limit: int,
    pub balance: int,
    pub transactions_count: int,
    pub last_transaction: int,
    pub encoded_transactions: Option<Seq<u8>>,
}

impl View for UserDb {
    type V = UserDbView;

    open spec fn view(&self) -> UserDbView {
        UserDbView {
            id: self.id as int,
            balance_limit: self.balance_limit as int,
            balance: self.balance as int,
            transactions_count: self.transactions_count as int,
            last_transaction: self.last_transaction as int,
            encoded_transactions: match self.encoded_transactions {
                Some(bytes) => Some(bytes@),
                None => None,
            },
        }
    }
}

impl UserDbView {
    /// The history the row stands for: what its bytes decode to, ten blank
    /// slots when it has no bytes, `None` when the bytes decode to nothing.
    pub open spec fn stored_transactions(self) -> Option<Seq<TransactionView>> {
        match self.encoded_transactions {
            None => Some(blank_history()),
            Some(bytes) => bincode_decoding(bytes),
        }
    }

    /// The account with this row's numbers and the given ring slots.
    pub open spec fn with_transactions(self, transactions: Seq<TransactionView>) -> UserView {
        UserView {
            id: self.id,
            balance_limit: self.balance_limit,
            balance: self.balance,
            transactions_count: self.transactions_count,
            last_transaction: self.last_transaction,
            transactions,
        }
    }
}

impl Clone for User {
    fn clone(&self) -> (copy: User)
        ensures
            copy@ == self@,
    {
        let transactions = [
            self.transactions[0].clone(),
            self.transactions[1].clone(),
            self.transactions[2].clone(),
            self.transactions[3].clone(),
            self.transactions[4].clone(),
            self.transactions[5].clone(),
            self.transactions[6].clone(),
            self.transactions[7].clone(),
            self.transactions[8].clone(),
            self.transactions[9].clone(),
        ];
        assert(views_of(transactions@) =~= views_of(self.transactions@));
        User {
            id: self.id,
            balance_limit: self.balance_limit,
            balance: self.balance,
            transactions_count: self.transactions_count,
            last_transaction: self.last_transaction,
            transactions,
        }
    }
}

impl Clone for UserDb {
    fn clone(&self) -> (copy: UserDb)
        ensures
            copy@ == self@,
    {
        UserDb {
            id: self.id,
            balance_limit: self.balance_limit,
            balance: self.balance,
            transactions_count: self.transactions_count,
            last_transaction: self.last_transaction,
            encoded_transactions: match &self.encoded_transactions {
                Some(bytes) => Some(bytes.clone()),
                None => None,
            },
        }
    }
}

/// A description is acceptable when it has one to ten characters.
pub open spec fn description_ok(descricao: Seq<char>) -> bool {
    1 <= descricao.len() <= 10
}

/// The kind of a credit.
pub open spec fn is_credit(tipo: Seq<char>) -> bool {
    tipo =~= seq!['c']
}

/// The kind of a debit.
pub open spec fn is_debit(tipo: Seq<char>) -> bool {
    tipo =~= seq!['d']
}

/// The byte reported for an unrecognised kind: the first byte of its
/// UTF-8 text, or `0` when there is no text at all.
pub open spec fn kind_byte(tipo: Seq<char>) -> u8 {
    if tipo.len() == 0 {
        0
    } else {
        encode_utf8(tipo)[0]
    }
}

/// History with `t` put in front, cut back to the ten most recent.
pub open spec fn pushed(history: Seq<TransactionView>, t: TransactionView) -> Seq<
    TransactionView,
> {
    let longer = seq![t] + history;
    if longer.len() > 10 {
        longer.take(10)
    } else {
        longer
    }
}

impl UserView {
    /// The row with this account's numbers and the given encoded history.
    pub open spec fn with_encoding(self, bytes: Seq<u8>) -> UserDbView {
        UserDbView {
            id: self.id,
            balance_limit: self.balance_limit,
            balance: self.balance,
            transactions_count: self.transactions_count,
            last_transaction: self.last_transaction,
            encoded_transactions: Some(bytes),
        }
    }

    /// The ring's bookkeeping is consistent: ten slots; while the ring
    /// fills, the next slot is the one after the last live slot; once it is
    /// full, any slot may be next.
    pub open spec fn ring_wf(self) -> bool {
        &&& self.transactions.len() == 10
        &&& 0 <= self.transactions_count <= 10
        &&& 0 <= self.last_transaction < 10
        &&& self.transactions_count < 10 ==> self.last_transaction == self.transactions_count
    }

    /// The account is one the ledger could have produced: positive id,
    /// non-negative limit, balance within the limit, consistent ring.
    pub open spec fn wf(self) -> bool {
        &&& self.id > 0
        &&& self.balance_limit >= 0
        &&& self.balance >= -self.balance_limit
        &&& self.ring_wf()
    }

    /// The transaction can be offered to this account: its amount is
    /// positive, and where it is a credit that will be accepted, the
    /// balance with the amount added still fits the record.
    pub open spec fn can_take(self, t: TransactionView) -> bool {
        &&& t.valor > 0
        &&& description_ok(t.descricao) && is_credit(t.tipo) ==> self.balance + t.valor
            <= i32::MAX
    }

    /// The decision on a transaction offered to this account. The
    /// description is looked at first, then the kind, and for a debit the
    /// limit.
    pub open spec fn verdict(self, t: TransactionView) -> TransactionResult {
        if !description_ok(t.descricao) {
            TransactionResult::InvalidDescription
        } else if is_credit(t.tipo) {
            TransactionResult::Accepted
        } else if is_debit(t.tipo) {
            if self.balance - t.valor < -self.balance_limit {
                TransactionResult::LimitExceeded
            } else {
                TransactionResult::Accepted
            }
        } else {
            TransactionResult::InvalidTransactionKind(kind_byte(t.tipo))
        }
    }

    /// The account after `t` was offered to it: the balance moved by the
    /// amount when `t` is accepted, nothing changed otherwise.
    pub open spec fn computed(self, t: TransactionView) -> UserView {
        if self.verdict(t) != TransactionResult::Accepted {
            self
        } else if is_credit(t.tipo) {
            UserView { balance: self.balance + t.valor, ..self }
        } else {
            UserView { balance: self.balance - t.valor, ..self }
        }
    }

    /// The slot the next recorded transaction goes to.
    pub open spec fn write_slot(self) -> int {
        if self.transactions_count < 10 {
            self.transactions_count
        } else {
            self.last_transaction
        }
    }

    /// The account after `t` was recorded in its ring.
    pub open spec fn added(self, t: TransactionView) -> UserView {
        UserView {
            transactions: self.transactions.update(self.write_slot(), t),
            transactions_count: if self.transactions_count < 10 {
                self.transactions_count + 1
            } else {
                self.transactions_count
            },
            last_transaction: (self.write_slot() + 1) % 10,
            ..self
        }
    }

    /// The account after `t` was offered to it: recorded with the balance
    /// moved when it is accepted, nothing changed otherwise.
    pub open spec fn applied(self, t: TransactionView) -> UserView {
        if self.verdict(t) == TransactionResult::Accepted {
            self.computed(t).added(t)
        } else {
            self
        }
    }

    /// The account after each of `ts` was offered to it in turn.
    pub open spec fn applied_all(self, ts: Seq<TransactionView>) -> UserView
        decreases ts.len(),
    {
        if ts.len() == 0 {
            self
        } else {
            self.applied_all(ts.drop_last()).applied(ts.last())
        }
    }

    /// The account after each of `ts` was recorded in turn.
    pub open spec fn added_all(self, ts: Seq<TransactionView>) -> UserView
        decreases ts.len(),
    {
        if ts.len() == 0 {
            self
        } else {
            self.added_all(ts.drop_last()).added(ts.last())
        }
    }

    /// The slot that holds the `j`-th most recent transaction (`j` from 0):
    /// `j + 1` steps back from the next slot, around the live slots.
    pub open spec fn slot_of(self, j: int) -> int {
        (self.last_transaction - 1 - j) % self.transactions_count
    }

    /// The recorded transactions, most recent first.
    pub open spec fn history(self) -> Seq<TransactionView> {
        Seq::new(self.transactions_count as nat, |j: int| self.transactions[self.slot_of(j)])
    }

    /// Where the `j`-th most recent transaction sits, without the modulus.
    pub proof fn lemma_slot_of(self, j: int)
        requires
            self.ring_wf(),
            0 <= j < self.transactions_count,
        ensures
            0 <= self.slot_of(j) < self.transactions_count,
            self.slot_of(j) == if j < self.last_transaction {
                self.last_transaction - 1 - j
            } else {
                self.last_transaction - 1 - j + self.transactions_count
            },
    {
        let n = self.transactions_count;
        let back = self.last_transaction - 1 - j;
        if back >= 0 {
            lemma_small_mod(back as nat, n as nat);
        } else {
            lemma_mod_add_multiples_vanish(back, n);
            lemma_small_mod((back + n) as nat, n as nat);
        }
    }

    /// Recording a transaction keeps the ring consistent and makes the
    /// transaction the most recent entry of the history; once ten are
    /// kept, the oldest one goes.
    pub proof fn lemma_added_history(self, t: TransactionView)
        requires
            self.ring_wf(),
        ensures
            self.added(t).ring_wf(),
            self.added(t).history() == pushed(self.history(), t),
    {
        let after = self.added(t);
        let expected = pushed(self.history(), t);
        assert(after.history().len() == expected.len());
        assert forall|j: int| 0 <= j < after.history().len() implies after.history()[j]
            == expected[j] by {
            after.lemma_slot_of(j);
            if j > 0 {
                self.lemma_slot_of(j - 1);
            }
        }
        assert(after.history() =~= expected);
    }
}

/// The ten most recent of the transactions `ts`, recorded in that order
/// on top of an older `history`: newest first.
pub open spec fn newest_first(ts: Seq<TransactionView>, history: Seq<TransactionView>) -> Seq<
    TransactionView,
> {
    let all = ts.reverse() + history;
    if all.len() > 10 {
        all.take(10)
    } else {
        all
    }
}

impl UserView {
    /// A rejected transaction changes nothing: not the balance, not the
    /// count, not the history.
    pub proof fn lemma_rejection_changes_nothing(self, t: TransactionView)
        requires
            self.verdict(t) != TransactionResult::Accepted,
        ensures
            self.applied(t) == self,
            self.computed(t) == self,
    {
    }

    /// An accepted transaction of a positive amount leaves a well-formed
    /// account well-formed, and its id and limit as they were.
    pub proof fn lemma_applied_wf(self, t: TransactionView)
        requires
            self.wf(),
            t.valor > 0,
        ensures
            self.applied(t).wf(),
            self.applied(t).id == self.id,
            self.applied(t).balance_limit == self.balance_limit,
    {
    }

    /// Whatever transactions of positive amounts are offered, in whatever
    /// order, the balance never goes below the negated limit: not at the
    /// end and not after any of them.
    pub proof fn lemma_balance_never_below_limit(self, ts: Seq<TransactionView>)
        requires
            self.balance >= -self.balance_limit,
            forall|i: int| 0 <= i < ts.len() ==> (#[trigger] ts[i]).valor > 0,
        ensures
            self.applied_all(ts).balance_limit == self.balance_limit,
            self.applied_all(ts).balance >= -self.balance_limit,
            forall|k: int|
                0 <= k <= ts.len() ==> (#[trigger] self.applied_all(ts.take(k))).balance
                    >= -self.balance_limit,
        decreases ts.len(),
    {
        if ts.len() > 0 {
            self.lemma_balance_never_below_limit(ts.drop_last());
            assert forall|k: int| 0 <= k <= ts.len() implies (#[trigger] self.applied_all(
                ts.take(k),
            )).balance >= -self.balance_limit by {
                if k < ts.len() {
                    assert(ts.take(k) =~= ts.drop_last().take(k));
                } else {
                    assert(ts.take(k) =~= ts);
                }
            }
        } else {
            assert forall|k: int| 0 <= k <= ts.len() implies (#[trigger] self.applied_all(
                ts.take(k),
            )).balance >= -self.balance_limit by {
                assert(ts.take(k) =~= ts);
            }
        }
    }

    /// After any number of transactions were recorded, the history holds
    /// the ten most recent of them and of what it held before, the newest
    /// first; older ones are gone.
    pub proof fn lemma_history_after_all(self, ts: Seq<TransactionView>)
        requires
            self.ring_wf(),
        ensures
            self.added_all(ts).ring_wf(),
            self.added_all(ts).history() == newest_first(ts, self.history()),
        decreases ts.len(),
    {
        if ts.len() == 0 {
            assert(ts.reverse() + self.history() =~= self.history());
        } else {
            let earlier = ts.drop_last();
            let before = self.added_all(earlier);
            self.lemma_history_after_all(earlier);
            before.lemma_added_history(ts.last());
            assert(ts.reverse() =~= seq![ts.last()] + earlier.reverse());
            assert(ts.reverse() + self.history() =~= seq![ts.last()] + (earlier.reverse()
                + self.history()));
            assert(pushed(newest_first(earlier, self.history()), ts.last()) =~= newest_first(
                ts,
                self.history(),
            ));
        }
    }
}

/// Going one slot back in a ring of `n` slots, from a slot or from just
/// past the last one.
proof fn lemma_step_back(slot: int, n: int)
    requires
        0 < n,
        0 <= slot <= n,
    ensures
        (slot - 1 + n) % n == if slot == 0 {
            n - 1
        } else {
            slot - 1
        },
{
    if slot == 0 {
        lemma_small_mod((n - 1) as nat, n as nat);
    } else {
        lemma_mod_add_multiples_vanish(slot - 1, n);
        lemma_small_mod((slot - 1) as nat, n as nat);
    }
}

/// Whether `tipo` is exactly the one-letter kind `letter`.
fn is_kind(tipo: &str, letter: char) -> (same: bool)
    ensures
        same == (tipo@ =~= seq![letter]),
{
    tipo.unicode_len() == 1 && tipo.get_char(0) == letter
}

/// The first byte of `tipo`, or `0` for the empty text.
fn first_byte(tipo: &str) -> (byte: u8)
    ensures
        byte == kind_byte(tipo@),
{
    let bytes = tipo.as_bytes();
    if bytes.len() == 0 {
        proof {
            if tipo@.len() > 0 {
                assert(encode_utf8(tipo@).len() > 0);
            }
        }
        0
    } else {
        bytes[0]
    }
}

impl UserDb {
    /// The row that stores `user`: its numbers and its encoded history.
    ///
    /// Fails exactly when [`encode_transactions`] does.
    pub fn from(user: User) -> (row: Result<UserDb, CodecError>)
        ensures
            match bincode_encoding(user@.transactions) {
                None => row == Err::<UserDb, CodecError>(CodecError::Encode),
                Some(bytes) => if bytes.len() < MAX_ENCODED_SIZE {
                    row matches Ok(stored) && stored@ == user@.with_encoding(bytes)
                } else {
                    row == Err::<UserDb, CodecError>(CodecError::TooLarge)
                },
            },
    {
        match encode_transactions(&user.transactions) {
            Ok(encoded) => Ok(
                UserDb {
                    id: user.id,
                    balance_limit: user.balance_limit,
                    balance: user.balance,
                    transactions_count: user.transactions_count,
                    last_transaction: user.last_transaction,
                    encoded_transactions: Some(encoded),
                },
            ),
            Err(e) => Err(e),
        }
    }
}

impl User {
    /// The account a stored row stands for.
    ///
    /// Fails exactly when the row has bytes that do not decode.
    pub fn from(user: UserDb) -> (loaded: Result<User, CodecError>)
        ensures
            match user@.stored_transactions() {
                Some(transactions) => loaded matches Ok(account) && account@
                    == user@.with_transactions(transactions),
                None => loaded == Err::<User, CodecError>(CodecError::Decode),
            },
    {
        User::from_row(&user)
    }

    /// The account a stored row stands for, with the row left to the
    /// caller: as [`User::from`].
    pub fn from_row(row: &UserDb) -> (loaded: Result<User, CodecError>)
        ensures
            match row@.stored_transactions() {
                Some(transactions) => loaded matches Ok(account) && account@
                    == row@.with_transactions(transactions),
                None => loaded == Err::<User, CodecError>(CodecError::Decode),
            },
    {
        let transactions = match &row.encoded_transactions {
            None => empty_history(),
            Some(bytes) => match decode_history(bytes.as_slice()) {
                Ok(stored) => stored,
                Err(e) => {
                    return Err(e);
                },
            },
        };
        Ok(
            User {
                id: row.id,
                balance_limit: row.balance_limit,
                balance: row.balance,
                transactions_count: row.transactions_count,
                last_transaction: row.last_transaction,
                transactions,
            },
        )
    }

    /// Whether the ring's bookkeeping is consistent: see
    /// [`UserView::ring_wf`].
    pub fn is_ring_wf(&self) -> (ok: bool)
        ensures
            ok == self@.ring_wf(),
    {
        0 <= self.transactions_count && self.transactions_count <= 10 && 0
            <= self.last_transaction && self.last_transaction < 10 && (self.transactions_count
            >= 10 || self.last_transaction == self.transactions_count)
    }

    /// Whether the record satisfies every rule of [`UserView::wf`].
    pub fn is_wf(&self) -> (ok: bool)
        ensures
            ok == self@.wf(),
    {
        self.id > 0 && self.balance_limit >= 0 && self.balance as i64 >= -(self.balance_limit
            as i64) && self.is_ring_wf()
    }

    /// Whether `transaction` can be offered to this account: see
    /// [`UserView::can_take`].
    pub fn can_take(&self, transaction: &Transaction) -> (ok: bool)
        ensures
            ok == self@.can_take(transaction@),
    {
        if transaction.valor <= 0 {
            return false;
        }
        let description_len = transaction.descricao.as_str().unicode_len();
        if description_len > 10 || description_len == 0 {
            return true;
        }
        if !is_kind(transaction.tipo.as_str(), 'c') {
            return true;
        }
        self.balance as i64 + transaction.valor as i64 <= i32::MAX as i64
    }

    /// Decides on `transaction` and, when it is accepted, moves the balance.
    ///
    /// Nothing but the balance is ever written, and a rejected transaction
    /// leaves the account exactly as it was. Recording an accepted
    /// transaction in the history is [`User::add_transaction`]'s part.
    pub fn compute_transaction(&mut self, transaction: &Transaction) -> (result:
        TransactionResult)
        requires
            old(self)@.can_take(transaction@),
        ensures
            result == old(self)@.verdict(transaction@),
            final(self)@ == old(self)@.computed(transaction@),
            *final(self) == (User { balance: final(self).balance, ..*old(self) }),
            result != TransactionResult::Accepted ==> *final(self) == *old(self),
            old(self).balance >= -old(self).balance_limit
                ==> final(self).balance >= -final(self).balance_limit,
    {
        let description_len = transaction.descricao.as_str().unicode_len();
        if description_len > 10 || description_len == 0 {
            return TransactionResult::InvalidDescription;
        }
        let kind = transaction.tipo.as_str();
        if is_kind(kind, 'c') {
            self.balance = self.balance + transaction.valor;
            TransactionResult::Accepted
        } else if is_kind(kind, 'd') {
            let after: i64 = self.balance as i64 - transaction.valor as i64;
            if after < -(self.balance_limit as i64) {
                return TransactionResult::LimitExceeded;
            }
            self.balance = self.balance - transaction.valor;
            TransactionResult::Accepted
        } else {
            TransactionResult::InvalidTransactionKind(first_byte(kind))
        }
    }

    /// Records an accepted transaction in the history ring.
    ///
    /// While the ring fills, the copy goes to the slot after the last live
    /// one; once all ten slots are live it overwrites the oldest. Either
    /// way the transaction becomes the most recent entry of the history.
    pub fn add_transaction(&mut self, transaction: &Transaction)
        requires
            old(self)@.ring_wf(),
        ensures
            final(self)@ == old(self)@.added(transaction@),
            final(self)@.ring_wf(),
            final(self)@.history() == pushed(old(self)@.history(), transaction@),
    {
        let copy_transaction = Transaction {
            valor: transaction.valor,
            descricao: transaction.descricao.clone(),
            tipo: transaction.tipo.clone(),
            realizada_em: transaction.realizada_em.clone(),
        };
        if self.transactions_count < 10 {
            let index: usize = self.transactions_count as usize;
            self.transactions[index] = copy_transaction;
            self.transactions_count += 1;
            self.last_transaction = self.transactions_count % 10;
        } else {
            let index: usize = self.last_transaction as usize;
            self.transactions[index] = copy_transaction;
            self.last_transaction = (self.last_transaction + 1) % 10;
        }
        proof {
            assert(self@.transactions =~= old(self)@.added(transaction@).transactions);
            old(self)@.lemma_added_history(transaction@);
        }
    }

    /// Lists the live history entries, most recent first, in the leading
    /// slots of `ordered_transactions`; the remaining slots are left alone.
    pub fn get_ordered_transactions<'a>(
        &'a self,
        ordered_transactions: &mut [Option<&'a Transaction>; 10],
    )
        requires
            self@.ring_wf(),
        ensures
            forall|j: int|
                0 <= j < self.transactions_count ==> #[trigger] final(ordered_transactions)@[j]
                    == Some(&self.transactions@[self@.slot_of(j)]),
            forall|j: int|
                0 <= j < self.transactions_count
                    ==> (#[trigger] final(ordered_transactions)@[j])->0@ == self@.history()[j],
            forall|j: int|
                self.transactions_count <= j < 10 ==> #[trigger] final(ordered_transactions)@[j]
                    == old(ordered_transactions)@[j],
    {
        if self.transactions_count == 0 {
            return ;
        }
        let n_transactions: i32 = self.transactions_count;
        let mut i: i32 = self.last_transaction;
        proof {
            self@.lemma_slot_of(0);
            lemma_step_back(i as int, n_transactions as int);
        }
        i = (i - 1 + n_transactions) % n_transactions;
        let mut j: i32 = 0;
        while j < n_transactions
            invariant
                self@.ring_wf(),
                n_transactions == self.transactions_count,
                0 <= j <= n_transactions,
                0 <= i < n_transactions,
                j < n_transactions ==> i == self@.slot_of(j as int),
                forall|k: int|
                    0 <= k < j ==> #[trigger] ordered_transactions@[k] == Some(
                        &self.transactions@[self@.slot_of(k)],
                    ),
                forall|k: int|
                    j <= k < 10
                        ==> #[trigger] ordered_transactions@[k] == old(ordered_transactions)@[k],
            decreases n_transactions - j,
        {
            let index_i: usize = i as usize;
            let index_j: usize = j as usize;
            ordered_transactions[index_j] = Some(&self.transactions[index_i]);
            proof {
                lemma_step_back(i as int, n_transactions as int);
                if j + 1 < n_transactions {
                    self@.lemma_slot_of(j as int);
                    self@.lemma_slot_of(j + 1);
                }
            }
            i = (i - 1 + n_transactions) % n_transactions;
            j += 1;
        }
        proof {
            assert forall|j: int| 0 <= j < self.transactions_count implies (
            #[trigger] ordered_transactions@[j])->0@ == self@.history()[j] by {
                self@.lemma_slot_of(j);
            }
        }
    }
}

} // verus!
