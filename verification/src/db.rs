//! What the ledger decides around storage: which accounts exist at the
//! start, what a read row means, and the steps of one update between the
//! storage operations that the caller carries out.

use vstd::prelude::*;
use vstd::string::StringExecFns;

use crate::clock::local_timestamp;
use crate::transaction::{
    bincode_decoding, bincode_encoding, blank_history, decode_transactions, empty_history,
    encode_transactions, CodecError, Transaction, TransactionView, MAX_ENCODED_SIZE,
};
use crate::user::{
    description_ok, is_credit, pushed, TransactionResult, User, UserDb, UserDbView, UserView,
};

verus! {

/// Number of accounts the ledger starts with.
pub const INITIAL_USER_COUNT: usize = 5;

/// The credit limits of the initial accounts, in id order.
pub const INITIAL_USER_LIMITS: [i32; 5] = [100_000, 80_000, 1_000_000, 10_000_000, 500_000];

/// The initial account with the given index (from 0): id `index + 1`, its
/// limit, and nothing else.
pub open spec fn initial_user(index: int) -> UserView {
    UserView {
        id: index + 1,
        balance_limit: INITIAL_USER_LIMITS[index] as int,
        balance: 0,
        transactions_count: 0,
        last_transaction: 0,
        transactions: blank_history(),
    }
}

/// The accounts to create when storage is reset: ids 1 to 5, each with its
/// limit, a zero balance and an empty history.
pub fn reset() -> (users: Vec<User>)
    ensures
        users@.len() == INITIAL_USER_COUNT,
        forall|i: int| 0 <= i < users@.len() ==> (#[trigger] users@[i])@ == initial_user(i),
        forall|i: int| 0 <= i < users@.len() ==> (#[trigger] users@[i])@.wf(),
{
    let mut users: Vec<User> = Vec::new();
    let mut i: usize = 0;
    while i < INITIAL_USER_COUNT
        invariant
            i <= INITIAL_USER_COUNT,
            users@.len() == i,
            forall|k: int| 0 <= k < i ==> (#[trigger] users@[k])@ == initial_user(k),
        decreases INITIAL_USER_COUNT - i,
    {
        let user = User {
            id: (i + 1) as i32,
            balance_limit: INITIAL_USER_LIMITS[i],
            balance: 0,
            transactions_count: 0,
            last_transaction: 0,
            transactions: empty_history(),
        };
        users.push(user);
        i += 1;
    }
    users
}

/// How reading an account went.
#[derive(Debug, PartialEq, Eq)]
pub enum ReadUserResult {
    /// The account was found and copied into the caller's record.
    Found,
    /// No account has that id.
    NotFound,
    /// Storage failed, or held a history that does not decode.
    InternalError(String),
}

/// How creating an account went.
#[derive(Debug, PartialEq, Eq)]
pub enum CreateUserResult {
    /// The row was inserted; holds the number of rows storage reports.
    Created(u64),
    /// Storage failed.
    InternalError(String),
}

/// How an update went.
#[derive(Debug, PartialEq, Eq)]
pub enum UpdateUserResult {
    /// The transaction was accepted and stored; holds the account after it.
    Accepted(User),
    /// No account has that id.
    NotFound,
    /// The transaction was rejected; holds the reason, never `Accepted`.
    /// Nothing was written.
    Unprocessable(TransactionResult),
    /// Storage failed, or held or would hold a history that cannot be
    /// encoded or decoded.
    InternalError(String),
}

/// An [`UpdateUserResult`] as plain mathematics.
pub enum UpdateUserResultView {
    Accepted(UserView),
    NotFound,
    Unprocessable(TransactionResult),
    InternalError(Seq<char>),
}

impl View for UpdateUserResult {
    type V = UpdateUserResultView;

    open spec fn view(&self) -> UpdateUserResultView {
        match self {
            UpdateUserResult::Accepted(user) => UpdateUserResultView::Accepted(user@),
            UpdateUserResult::NotFound => UpdateUserResultView::NotFound,
            UpdateUserResult::Unprocessable(reason) => UpdateUserResultView::Unprocessable(
                *reason,
            ),
            UpdateUserResult::InternalError(message) => UpdateUserResultView::InternalError(
                message@,
            ),
        }
    }
}

/// `prefix` followed by `detail`.
fn message(prefix: &str, detail: &str) -> (text: String)
    ensures
        text@ == prefix@ + detail@,
{
    String::from_str(prefix).concat(detail)
}

/// Copies a row that was read into the caller's record.
///
/// `fetched` is what storage answered: the row, no row, or the text of
/// its error. The record keeps its id; its numbers are replaced by the
/// row's, and its history by what the row's bytes decode to (a row
/// without bytes leaves the history as it is). On every failure the
/// record is left untouched.
pub fn read_user(fetched: Result<Option<UserDb>, String>, user: &mut User) -> (result:
    ReadUserResult)
    ensures
        match fetched {
            Err(e) => result matches ReadUserResult::InternalError(m) && m@
                == "Error reading user: "@ + e@ && *final(user) == *old(user),
            Ok(None) => result is NotFound && *final(user) == *old(user),
            Ok(Some(row)) => match row@.encoded_transactions {
                None => result is Found && final(user)@ == UserView {
                    id: old(user)@.id,
                    ..row@.with_transactions(old(user)@.transactions)
                },
                Some(bytes) => match bincode_decoding(bytes) {
                    Some(stored) => result is Found && final(user)@ == UserView {
                        id: old(user)@.id,
                        ..row@.with_transactions(stored)
                    },
                    None => result matches ReadUserResult::InternalError(m) && m@
                        == "Failed to decode transactions"@ && *final(user) == *old(user),
                },
            },
        },
{
    match fetched {
        Err(e) => ReadUserResult::InternalError(message("Error reading user: ", e.as_str())),
        Ok(None) => ReadUserResult::NotFound,
        Ok(Some(db_user)) => {
            match decode_transactions(db_user.encoded_transactions, &mut user.transactions) {
                Ok(()) => {
                    user.balance = db_user.balance;
                    user.balance_limit = db_user.balance_limit;
                    user.transactions_count = db_user.transactions_count;
                    user.last_transaction = db_user.last_transaction;
                    ReadUserResult::Found
                },
                Err(_) => ReadUserResult::InternalError(
                    String::from_str("Failed to decode transactions"),
                ),
            }
        },
    }
}

/// Reports how the insert of a new account went.
///
/// `inserted` is what storage answered: the number of rows it wrote, or
/// the text of its error.
pub fn create_user(inserted: Result<u64, String>) -> (result: CreateUserResult)
    ensures
        match inserted {
            Ok(rows) => result == CreateUserResult::Created(rows),
            Err(e) => result matches CreateUserResult::InternalError(m) && m@
                == "Error inserting users: "@ + e@,
        },
{
    match inserted {
        Ok(rows) => CreateUserResult::Created(rows),
        Err(e) => CreateUserResult::InternalError(message("Error inserting users: ", e.as_str())),
    }
}

/// Where one update stands. The caller carries out one storage operation
/// at a time and reports back; the state says which answer is awaited.
/// Nothing here depends on what kind of storage it is.
#[derive(Debug, PartialEq, Eq)]
pub enum UpdateState {
    /// Exclusive access to storage was asked for.
    Beginning,
    /// The account's row was asked for, under an exclusive lock.
    Loading,
    /// The write of the updated row was asked for; holds the account as
    /// it will be once stored.
    Persisting(User),
    /// The commit was asked for; holds the account as it was written.
    Committing(User),
    /// The outcome was given out. Nothing is awaited any more.
    Done,
}

/// What storage answered to the operation that was asked of it.
#[derive(Debug, PartialEq, Eq)]
pub enum StorageEvent {
    /// The operation succeeded and has nothing to hand back.
    Completed,
    /// The read succeeded: the row, or none under that id.
    Loaded(Option<UserDb>),
    /// The operation failed; holds the text of the error.
    Failed(String),
}

/// What the caller has to do next.
#[derive(Debug, PartialEq, Eq)]
pub enum UpdateAction {
    /// Open the unit of work in which the account will be held (a
    /// database transaction, say).
    Begin,
    /// Read the row with this id and hold it, so that no other update of
    /// the same account gets it before this one has finished.
    LoadForUpdate(i32),
    /// Overwrite the held row with this one.
    Store(UserDb),
    /// Make the write durable and let go of the row.
    Commit,
    /// Let go of whatever is still held, undoing what was not committed,
    /// and hand this outcome out.
    Finish(UpdateUserResult),
}

/// An [`UpdateState`] as plain mathematics.
pub enum UpdateStateView {
    Beginning,
    Loading,
    Persisting(UserView),
    Committing(UserView),
    Done,
}

/// A [`StorageEvent`] as plain mathematics.
pub enum StorageEventView {
    Completed,
    Loaded(Option<UserDbView>),
    Failed(Seq<char>),
}

/// An [`UpdateAction`] as plain mathematics.
pub enum UpdateActionView {
    Begin,
    LoadForUpdate(int),
    Store(UserDbView),
    Commit,
    Finish(UpdateUserResultView),
}

impl View for UpdateState {
    type V = UpdateStateView;

    open spec fn view(&self) -> UpdateStateView {
        match self {
            UpdateState::Beginning => UpdateStateView::Beginning,
            UpdateState::Loading => UpdateStateView::Loading,
            UpdateState::Persisting(user) => UpdateStateView::Persisting(user@),
            UpdateState::Committing(user) => UpdateStateView::Committing(user@),
            UpdateState::Done => UpdateStateView::Done,
        }
    }
}

impl View for StorageEvent {
    type V = StorageEventView;

    open spec fn view(&self) -> StorageEventView {
        match self {
            StorageEvent::Completed => StorageEventView::Completed,
            StorageEvent::Loaded(Some(row)) => StorageEventView::Loaded(Some(row@)),
            StorageEvent::Loaded(None) => StorageEventView::Loaded(None),
            StorageEvent::Failed(error) => StorageEventView::Failed(error@),
        }
    }
}

impl View for UpdateAction {
    type V = UpdateActionView;

    open spec fn view(&self) -> UpdateActionView {
        match self {
            UpdateAction::Begin => UpdateActionView::Begin,
            UpdateAction::LoadForUpdate(id) => UpdateActionView::LoadForUpdate(*id as int),
            UpdateAction::Store(row) => UpdateActionView::Store(row@),
            UpdateAction::Commit => UpdateActionView::Commit,
            UpdateAction::Finish(outcome) => UpdateActionView::Finish(outcome@),
        }
    }
}

/// The transaction as it enters the history: stamped with the time of
/// its acceptance.
pub open spec fn stamped(t: TransactionView, now: Seq<char>) -> TransactionView {
    TransactionView { realizada_em: now, ..t }
}

/// The update ends with a storage failure described by `text`.
pub open spec fn failed(text: Seq<char>) -> (UpdateStateView, UpdateActionView) {
    (
        UpdateStateView::Done,
        UpdateActionView::Finish(UpdateUserResultView::InternalError(text)),
    )
}

/// What the ledger does with the row that was read and locked.
///
/// A row whose bytes do not decode, or whose account breaks the rules of
/// [`UserView::wf`], ends the update with a storage failure. A rejected
/// transaction ends it with the reason and without a write. An accepted
/// one moves the balance, enters the history stamped with `now`, and is
/// handed to storage, unless the new history cannot be encoded.
pub open spec fn on_row(row: UserDbView, t: TransactionView, now: Seq<char>) -> (
    UpdateStateView,
    UpdateActionView,
) {
    match row.stored_transactions() {
        None => failed("Failed to decode transactions"@),
        Some(transactions) => {
            let user = row.with_transactions(transactions);
            if !user.wf() {
                failed("Stored account is inconsistent"@)
            } else if user.verdict(t) != TransactionResult::Accepted {
                (
                    UpdateStateView::Done,
                    UpdateActionView::Finish(
                        UpdateUserResultView::Unprocessable(user.verdict(t)),
                    ),
                )
            } else {
                on_accepted(user.computed(t), t, now)
            }
        },
    }
}

/// What the ledger does once the transaction is accepted and the balance
/// moved: record it, stamped with `now`, and hand the row to storage.
pub open spec fn on_accepted(user: UserView, t: TransactionView, now: Seq<char>) -> (
    UpdateStateView,
    UpdateActionView,
) {
    let updated = user.added(stamped(t, now));
    match bincode_encoding(updated.transactions) {
        None => failed("Failed to encode transactions"@),
        Some(bytes) => if bytes.len() < MAX_ENCODED_SIZE {
            (
                UpdateStateView::Persisting(updated),
                UpdateActionView::Store(updated.with_encoding(bytes)),
            )
        } else {
            failed("Encoded transactions too large"@)
        },
    }
}

/// One step of an update of account `id` with transaction `t`: from the
/// state and storage's answer to the next state and what to do next.
///
/// `now` is the time that is stamped on the transaction if this is the
/// step that accepts it. An answer that does not fit the state ends the
/// update with a storage failure.
pub open spec fn step(
    state: UpdateStateView,
    event: StorageEventView,
    id: int,
    t: TransactionView,
    now: Seq<char>,
) -> (UpdateStateView, UpdateActionView) {
    match (state, event) {
        (UpdateStateView::Beginning, StorageEventView::Completed) => (
            UpdateStateView::Loading,
            UpdateActionView::LoadForUpdate(id),
        ),
        (UpdateStateView::Beginning, StorageEventView::Failed(e)) => failed(
            "Error starting transaction: "@ + e,
        ),
        (UpdateStateView::Loading, StorageEventView::Loaded(None)) => (
            UpdateStateView::Done,
            UpdateActionView::Finish(UpdateUserResultView::NotFound),
        ),
        (UpdateStateView::Loading, StorageEventView::Loaded(Some(row))) => on_row(row, t, now),
        (UpdateStateView::Loading, StorageEventView::Failed(e)) => failed(
            "Error reading user for update: "@ + e,
        ),
        (UpdateStateView::Persisting(user), StorageEventView::Completed) => (
            UpdateStateView::Committing(user),
            UpdateActionView::Commit,
        ),
        (UpdateStateView::Persisting(_), StorageEventView::Failed(e)) => failed(
            "Error updating user: "@ + e,
        ),
        (UpdateStateView::Committing(user), StorageEventView::Completed) => (
            UpdateStateView::Done,
            UpdateActionView::Finish(UpdateUserResultView::Accepted(user)),
        ),
        (UpdateStateView::Committing(_), StorageEventView::Failed(e)) => failed(
            "Error committing transaction: "@ + e,
        ),
        _ => failed("Unexpected answer from storage"@),
    }
}

/// Whether this step is the one that adds `t`'s amount to the balance of
/// the row that was read.
pub open spec fn credits(
    state: UpdateStateView,
    event: StorageEventView,
    t: TransactionView,
) -> bool {
    &&& state is Loading
    &&& event matches StorageEventView::Loaded(Some(row))
    &&& row.stored_transactions() matches Some(transactions)
    &&& row.with_transactions(transactions).wf()
    &&& description_ok(t.descricao)
    &&& is_credit(t.tipo)
}

/// The balance of the row that storage handed over, `0` if it handed none.
pub open spec fn loaded_balance(event: StorageEventView) -> int {
    match event {
        StorageEventView::Loaded(Some(row)) => row.balance,
        _ => 0,
    }
}

/// The step can be taken: the amount is positive, and if this step adds
/// it to a balance, the sum fits the record.
pub open spec fn in_range(
    state: UpdateStateView,
    event: StorageEventView,
    t: TransactionView,
) -> bool {
    &&& t.valor > 0
    &&& credits(state, event, t) ==> loaded_balance(event) + t.valor <= i32::MAX
}

/// The update ends with a storage failure described by `text`.
fn fail(text: String) -> (next: (UpdateState, UpdateAction))
    ensures
        (next.0@, next.1@) == failed(text@),
{
    (UpdateState::Done, UpdateAction::Finish(UpdateUserResult::InternalError(text)))
}

/// The text of a codec failure.
fn codec_message(error: CodecError) -> (text: String)
    ensures
        text@ == match error {
            CodecError::Encode => "Failed to encode transactions"@,
            CodecError::TooLarge => "Encoded transactions too large"@,
            CodecError::Decode => "Failed to decode transactions"@,
        },
{
    match error {
        CodecError::Encode => String::from_str("Failed to encode transactions"),
        CodecError::TooLarge => String::from_str("Encoded transactions too large"),
        CodecError::Decode => String::from_str("Failed to decode transactions"),
    }
}

/// Records an accepted transaction and prepares the write.
///
/// `user` is the account with the balance already moved. The transaction
/// enters its history with `now` as the time of acceptance, and the
/// account is encoded into the row to store.
pub fn record_accepted(user: User, transaction: &Transaction, now: String) -> (next: (
    UpdateState,
    UpdateAction,
))
    requires
        user@.ring_wf(),
    ensures
        (next.0@, next.1@) == on_accepted(user@, transaction@, now@),
{
    let mut user = user;
    let stamped_transaction = Transaction {
        valor: transaction.valor,
        descricao: transaction.descricao.clone(),
        tipo: transaction.tipo.clone(),
        realizada_em: now,
    };
    user.add_transaction(&stamped_transaction);
    match encode_transactions(&user.transactions) {
        Ok(encoded) => {
            let row = UserDb {
                id: user.id,
                balance_limit: user.balance_limit,
                balance: user.balance,
                transactions_count: user.transactions_count,
                last_transaction: user.last_transaction,
                encoded_transactions: Some(encoded),
            };
            (UpdateState::Persisting(user), UpdateAction::Store(row))
        },
        Err(e) => fail(codec_message(e)),
    }
}

/// One step of an update, with the clock read only if `now` is `None` and
/// the transaction is accepted in this step.
fn step_with(
    state: UpdateState,
    event: StorageEvent,
    id: i32,
    transaction: &Transaction,
    now: Option<String>,
) -> (next: (UpdateState, UpdateAction))
    requires
        in_range(state@, event@, transaction@),
    ensures
        exists|stamp: Seq<char>|
            (now matches Some(given) ==> stamp == given@) && (next.0@, next.1@) == #[trigger] step(
                state@,
                event@,
                id as int,
                transaction@,
                stamp,
            ),
{
    let ghost given: Seq<char> = match &now {
        Some(text) => text@,
        None => Seq::empty(),
    };
    let ghost before = (state@, event@);
    let next = match state {
        UpdateState::Beginning => match event {
            StorageEvent::Completed => (UpdateState::Loading, UpdateAction::LoadForUpdate(id)),
            StorageEvent::Failed(e) => fail(message("Error starting transaction: ", e.as_str())),
            StorageEvent::Loaded(_) => fail(String::from_str("Unexpected answer from storage")),
        },
        UpdateState::Loading => match event {
            StorageEvent::Loaded(None) => (
                UpdateState::Done,
                UpdateAction::Finish(UpdateUserResult::NotFound),
            ),
            StorageEvent::Loaded(Some(row)) => {
                match User::from(row) {
                    Err(e) => fail(codec_message(e)),
                    Ok(loaded) => {
                        let mut user = loaded;
                        if !user.is_wf() {
                            fail(String::from_str("Stored account is inconsistent"))
                        } else {
                            let result = user.compute_transaction(transaction);
                            match result {
                                TransactionResult::Accepted => {
                                    let stamp = match now {
                                        Some(text) => text,
                                        None => local_timestamp(),
                                    };
                                    let next = record_accepted(user, transaction, stamp);
                                    proof {
                                        assert((next.0@, next.1@) == step(
                                            before.0,
                                            before.1,
                                            id as int,
                                            transaction@,
                                            stamp@,
                                        ));
                                    }
                                    return next;
                                },
                                _ => (
                                    UpdateState::Done,
                                    UpdateAction::Finish(UpdateUserResult::Unprocessable(result)),
                                ),
                            }
                        }
                    },
                }
            },
            StorageEvent::Failed(e) => fail(
                message("Error reading user for update: ", e.as_str()),
            ),
            StorageEvent::Completed => fail(String::from_str("Unexpected answer from storage")),
        },
        UpdateState::Persisting(user) => match event {
            StorageEvent::Completed => (UpdateState::Committing(user), UpdateAction::Commit),
            StorageEvent::Failed(e) => fail(message("Error updating user: ", e.as_str())),
            StorageEvent::Loaded(_) => fail(String::from_str("Unexpected answer from storage")),
        },
        UpdateState::Committing(user) => match event {
            StorageEvent::Completed => (
                UpdateState::Done,
                UpdateAction::Finish(UpdateUserResult::Accepted(user)),
            ),
            StorageEvent::Failed(e) => fail(message("Error committing transaction: ", e.as_str())),
            StorageEvent::Loaded(_) => fail(String::from_str("Unexpected answer from storage")),
        },
        UpdateState::Done => fail(String::from_str("Unexpected answer from storage")),
    };
    proof {
        assert((next.0@, next.1@) == step(before.0, before.1, id as int, transaction@, given));
    }
    next
}

/// Starts an update: the first thing to ask of storage, and the state
/// that awaits its answer.
pub fn begin_update() -> (next: (UpdateState, UpdateAction))
    ensures
        next.0 is Beginning,
        next.1 is Begin,
{
    (UpdateState::Beginning, UpdateAction::Begin)
}

/// One step of an update of account `id` with `transaction`, with the
/// time of acceptance given by the caller.
///
/// The caller starts with [`begin_update`], carries out each action, and
/// hands the answer back with the state it was given, until the action is
/// `Finish`.
pub fn update_step_at(
    state: UpdateState,
    event: StorageEvent,
    id: i32,
    transaction: &Transaction,
    now: String,
) -> (next: (UpdateState, UpdateAction))
    requires
        in_range(state@, event@, transaction@),
    ensures
        (next.0@, next.1@) == step(state@, event@, id as int, transaction@, now@),
{
    step_with(state, event, id, transaction, Some(now))
}

/// One step of an update of account `id` with `transaction`. The step
/// that accepts the transaction stamps it with the local time it reads
/// at that moment.
///
/// The caller starts with [`begin_update`], carries out each action, and
/// hands the answer back with the state it was given, until the action is
/// `Finish`.
pub fn update_user_with_transaction(
    state: UpdateState,
    event: StorageEvent,
    id: i32,
    transaction: &Transaction,
) -> (next: (UpdateState, UpdateAction))
    requires
        in_range(state@, event@, transaction@),
    ensures
        exists|now: Seq<char>|
            (next.0@, next.1@) == #[trigger] step(state@, event@, id as int, transaction@, now),
{
    step_with(state, event, id, transaction, None)
}

/// Whether the step can be taken: see [`in_range`].
pub fn is_in_range(state: &UpdateState, event: &StorageEvent, transaction: &Transaction) -> (ok:
    bool)
    ensures
        ok == in_range(state@, event@, transaction@),
{
    if transaction.valor <= 0 {
        return false;
    }
    match state {
        UpdateState::Loading => match event {
            StorageEvent::Loaded(Some(row)) => match User::from_row(row) {
                Ok(user) => !user.is_wf() || user.can_take(transaction),
                Err(_) => true,
            },
            _ => true,
        },
        _ => true,
    }
}

/// [`update_user_with_transaction`] for callers that cannot vouch for
/// the numbers: `None`, and nothing done, where the amount is not
/// positive or a credit would take the balance past what the record can
/// hold.
pub fn try_update_user_with_transaction(
    state: UpdateState,
    event: StorageEvent,
    id: i32,
    transaction: &Transaction,
) -> (taken: Option<(UpdateState, UpdateAction)>)
    ensures
        taken is Some <==> in_range(state@, event@, transaction@),
        taken matches Some(next) ==> exists|now: Seq<char>|
            (next.0@, next.1@) == #[trigger] step(state@, event@, id as int, transaction@, now),
{
    if is_in_range(&state, &event, transaction) {
        Some(update_user_with_transaction(state, event, id, transaction))
    } else {
        None
    }
}

/// [`update_step_at`] for callers that cannot vouch for the numbers:
/// `None`, and nothing done, where the amount is not positive or a credit
/// would take the balance past what the record can hold.
pub fn try_update_step_at(
    state: UpdateState,
    event: StorageEvent,
    id: i32,
    transaction: &Transaction,
    now: String,
) -> (taken: Option<(UpdateState, UpdateAction)>)
    ensures
        taken is Some <==> in_range(state@, event@, transaction@),
        taken matches Some(next) ==> (next.0@, next.1@) == step(
            state@,
            event@,
            id as int,
            transaction@,
            now@,
        ),
{
    if is_in_range(&state, &event, transaction) {
        Some(update_step_at(state, event, id, transaction, now))
    } else {
        None
    }
}

/// Every step either goes on or tells the caller to finish: the update is
/// over exactly when the action is `Finish`, so whatever is held is let
/// go of on every way out.
pub proof fn lemma_done_iff_finish(
    state: UpdateStateView,
    event: StorageEventView,
    id: int,
    t: TransactionView,
    now: Seq<char>,
)
    ensures
        step(state, event, id, t, now).0 is Done <==> step(state, event, id, t, now).1 is Finish,
{
}

/// A step that rejects the transaction names a reason: the outcome never
/// holds `Accepted` as the reason of a rejection.
pub proof fn lemma_rejection_has_a_reason(
    state: UpdateStateView,
    event: StorageEventView,
    id: int,
    t: TransactionView,
    now: Seq<char>,
)
    ensures
        step(state, event, id, t, now).1 matches UpdateActionView::Finish(
            UpdateUserResultView::Unprocessable(reason),
        ) ==> reason != TransactionResult::Accepted,
{
}

/// The row an update writes is the row it read with the transaction
/// applied: same id, same limit, the balance moved by the amount, and a
/// history with the stamped transaction in front.
pub proof fn lemma_store_is_the_row_applied(
    row: UserDbView,
    id: int,
    t: TransactionView,
    now: Seq<char>,
)
    requires
        step(UpdateStateView::Loading, StorageEventView::Loaded(Some(row)), id, t, now).1 is Store,
    ensures
        ({
            let next = step(
                UpdateStateView::Loading,
                StorageEventView::Loaded(Some(row)),
                id,
                t,
                now,
            );
            let loaded = row.with_transactions(row.stored_transactions()->0);
            &&& row.stored_transactions() is Some
            &&& loaded.wf()
            &&& loaded.verdict(t) == TransactionResult::Accepted
            &&& next.0 == UpdateStateView::Persisting(loaded.applied(stamped(t, now)))
            &&& next.1->Store_0.id == row.id
            &&& next.1->Store_0.balance_limit == row.balance_limit
            &&& next.1->Store_0.balance == row.balance + (if is_credit(t.tipo) {
                t.valor
            } else {
                -t.valor
            })
            &&& loaded.applied(stamped(t, now)).history() == pushed(
                loaded.history(),
                stamped(t, now),
            )
        }),
{
    let loaded = row.with_transactions(row.stored_transactions()->0);
    loaded.computed(t).lemma_added_history(stamped(t, now));
    assert(loaded.computed(t).history() =~= loaded.history());
}

/// The state an update is in after storage gave the answers `events`, one
/// to each action in turn, with `stamps[i]` the time read at step `i`.
pub open spec fn run_state(
    events: Seq<StorageEventView>,
    stamps: Seq<Seq<char>>,
    id: int,
    t: TransactionView,
) -> UpdateStateView
    decreases events.len(),
{
    if events.len() == 0 {
        UpdateStateView::Beginning
    } else {
        step(
            run_state(events.drop_last(), stamps.drop_last(), id, t),
            events.last(),
            id,
            t,
            stamps.last(),
        ).0
    }
}

/// The actions an update asks for, after the opening `Begin`, while
/// storage gives the answers `events`: `run_actions(..)[i]` is what the
/// ledger asks for on answer `i`.
pub open spec fn run_actions(
    events: Seq<StorageEventView>,
    stamps: Seq<Seq<char>>,
    id: int,
    t: TransactionView,
) -> Seq<UpdateActionView>
    decreases events.len(),
{
    if events.len() == 0 {
        Seq::empty()
    } else {
        run_actions(events.drop_last(), stamps.drop_last(), id, t).push(
            step(
                run_state(events.drop_last(), stamps.drop_last(), id, t),
                events.last(),
                id,
                t,
                stamps.last(),
            ).1,
        )
    }
}

/// The action writes a row.
pub open spec fn is_store(action: UpdateActionView) -> bool {
    action is Store
}

/// The action ends the update with a rejected transaction.
pub open spec fn is_rejection(action: UpdateActionView) -> bool {
    action matches UpdateActionView::Finish(UpdateUserResultView::Unprocessable(_))
}

/// The accounts a state or an action carries are well-formed.
pub open spec fn carries_wf(state: UpdateStateView, action: UpdateActionView) -> bool {
    &&& state matches UpdateStateView::Persisting(user) ==> user.wf()
    &&& state matches UpdateStateView::Committing(user) ==> user.wf()
    &&& action matches UpdateActionView::Finish(UpdateUserResultView::Accepted(user))
        ==> user.wf()
    &&& action matches UpdateActionView::Store(row) ==> row.balance >= -row.balance_limit
}

/// What a run has done so far fits the state it is in: nothing was
/// written or rejected before the row is read, nothing was rejected once
/// a row was written, and never both.
spec fn run_inv(state: UpdateStateView, actions: Seq<UpdateActionView>) -> bool {
    let stored = exists|j: int| 0 <= j < actions.len() && is_store(#[trigger] actions[j]);
    let rejected = exists|k: int| 0 <= k < actions.len() && is_rejection(#[trigger] actions[k]);
    &&& carries_wf(state, UpdateActionView::Begin)
    &&& forall|j: int|
        0 <= j < actions.len() ==> carries_wf(UpdateStateView::Done, #[trigger] actions[j])
    &&& match state {
        UpdateStateView::Beginning | UpdateStateView::Loading => !stored && !rejected,
        UpdateStateView::Persisting(_) | UpdateStateView::Committing(_) => !rejected,
        UpdateStateView::Done => !(stored && rejected),
    }
}

proof fn lemma_run_inv(
    events: Seq<StorageEventView>,
    stamps: Seq<Seq<char>>,
    id: int,
    t: TransactionView,
)
    requires
        t.valor > 0,
    ensures
        run_actions(events, stamps, id, t).len() == events.len(),
        run_inv(run_state(events, stamps, id, t), run_actions(events, stamps, id, t)),
    decreases events.len(),
{
    if events.len() > 0 {
        lemma_run_inv(events.drop_last(), stamps.drop_last(), id, t);
        let before = run_state(events.drop_last(), stamps.drop_last(), id, t);
        let earlier = run_actions(events.drop_last(), stamps.drop_last(), id, t);
        let next = step(before, events.last(), id, t, stamps.last());
        let actions = run_actions(events, stamps, id, t);
        assert(actions == earlier.push(next.1));
        assert(carries_wf(next.0, next.1));
        assert forall|j: int| 0 <= j < actions.len() implies carries_wf(
            UpdateStateView::Done,
            #[trigger] actions[j],
        ) by {
            if j < earlier.len() {
                assert(actions[j] == earlier[j]);
            }
        }
        assert forall|j: int| 0 <= j < actions.len() && is_store(#[trigger] actions[j]) implies (
        j < earlier.len() && is_store(earlier[j])) || (j == earlier.len() && is_store(next.1)) by {
            if j < earlier.len() {
                assert(actions[j] == earlier[j]);
            }
        }
        assert forall|k: int|
            0 <= k < actions.len() && is_rejection(#[trigger] actions[k]) implies (k
            < earlier.len() && is_rejection(earlier[k])) || (k == earlier.len() && is_rejection(
            next.1,
        )) by {
            if k < earlier.len() {
                assert(actions[k] == earlier[k]);
            }
        }
    }
}

/// In every run of an update, whatever storage answers: a run that
/// rejects the transaction never writes a row, before or after.
pub proof fn lemma_rejection_never_stores(
    events: Seq<StorageEventView>,
    stamps: Seq<Seq<char>>,
    id: int,
    t: TransactionView,
    j: int,
    k: int,
)
    requires
        t.valor > 0,
        0 <= j < events.len(),
        0 <= k < events.len(),
        is_rejection(run_actions(events, stamps, id, t)[k]),
    ensures
        run_actions(events, stamps, id, t).len() == events.len(),
        !is_store(run_actions(events, stamps, id, t)[j]),
{
    lemma_run_inv(events, stamps, id, t);
}

/// In every run of an update, whatever storage answers: the account of
/// an accepted outcome is well-formed, so its balance is not below the
/// negated limit, and so is the balance of every row handed to storage.
pub proof fn lemma_accepted_within_limit(
    events: Seq<StorageEventView>,
    stamps: Seq<Seq<char>>,
    id: int,
    t: TransactionView,
    j: int,
)
    requires
        t.valor > 0,
        0 <= j < events.len(),
    ensures
        run_actions(events, stamps, id, t).len() == events.len(),
        run_actions(events, stamps, id, t)[j] matches UpdateActionView::Finish(
            UpdateUserResultView::Accepted(user),
        ) ==> user.wf() && user.balance >= -user.balance_limit,
        run_actions(events, stamps, id, t)[j] matches UpdateActionView::Store(row) ==> row.balance
            >= -row.balance_limit,
{
    lemma_run_inv(events, stamps, id, t);
}

/// What one update with transaction `t` comes to when storage never
/// fails: the outcome, and the row storage holds for the account
/// afterwards. `held` is the row it holds before, `None` when it holds
/// none under that id; `now` is the time of the update.
///
/// No row gives `NotFound`. A row that cannot be worked on gives a
/// storage failure, a rejected transaction its reason; both leave the row
/// as it is. An accepted transaction gives the account after it, and the
/// row that stores that account.
pub open spec fn update_outcome(held: Option<UserDbView>, t: TransactionView, now: Seq<char>) -> (
    UpdateUserResultView,
    Option<UserDbView>,
) {
    match held {
        None => (UpdateUserResultView::NotFound, None),
        Some(row) => match on_row(row, t, now) {
            (UpdateStateView::Persisting(user), UpdateActionView::Store(written)) => (
                UpdateUserResultView::Accepted(user),
                Some(written),
            ),
            (_, UpdateActionView::Finish(outcome)) => (outcome, held),
            _ => (UpdateUserResultView::NotFound, held),
        },
    }
}

/// What a storage that never fails answers in the course of one update:
/// access is granted, the row is handed over, and if a write is asked
/// for, the write and the commit succeed.
pub open spec fn honest_answers(held: Option<UserDbView>, t: TransactionView, now: Seq<char>) -> Seq<
    StorageEventView,
> {
    if held matches Some(row) && on_row(row, t, now).1 is Store {
        seq![
            StorageEventView::Completed,
            StorageEventView::Loaded(held),
            StorageEventView::Completed,
            StorageEventView::Completed,
        ]
    } else {
        seq![StorageEventView::Completed, StorageEventView::Loaded(held)]
    }
}

/// Against a storage that never fails, an update asks for the row, then
/// either finishes at once with the outcome [`update_outcome`] gives and
/// without a write, or writes the row [`update_outcome`] gives, commits,
/// and finishes with the accepted account.
pub proof fn lemma_update_against_honest_storage(
    held: Option<UserDbView>,
    id: int,
    t: TransactionView,
    now: Seq<char>,
)
    ensures
        ({
            let answers = honest_answers(held, t, now);
            let stamps = Seq::new(answers.len(), |i: int| now);
            let actions = run_actions(answers, stamps, id, t);
            let outcome = update_outcome(held, t, now);
            &&& actions.len() == answers.len()
            &&& actions[0] == UpdateActionView::LoadForUpdate(id)
            &&& actions.last() == UpdateActionView::Finish(outcome.0)
            &&& run_state(answers, stamps, id, t) is Done
            &&& if outcome.0 is Accepted {
                &&& actions.len() == 4
                &&& outcome.1 matches Some(written)
                &&& actions[1] == UpdateActionView::Store(written)
                &&& actions[2] == UpdateActionView::Commit
            } else {
                &&& actions.len() == 2
                &&& outcome.1 == held
            }
        }),
{
    let answers = honest_answers(held, t, now);
    let stamps = Seq::new(answers.len(), |i: int| now);
    let answers1 = answers.take(1);
    let answers2 = answers.take(2);
    let stamps1 = stamps.take(1);
    let stamps2 = stamps.take(2);
    assert(answers1.drop_last() =~= Seq::empty());
    assert(stamps1.drop_last() =~= Seq::empty());
    assert(run_state(answers1.drop_last(), stamps1.drop_last(), id, t) is Beginning);
    assert(run_actions(answers1.drop_last(), stamps1.drop_last(), id, t) =~= Seq::empty());
    assert(answers1.last() == StorageEventView::Completed);
    assert(run_state(answers1, stamps1, id, t) is Loading);
    assert(run_actions(answers1, stamps1, id, t) =~= seq![UpdateActionView::LoadForUpdate(id)]);
    assert(answers2.drop_last() =~= answers1);
    assert(stamps2.drop_last() =~= stamps1);
    let second = step(UpdateStateView::Loading, StorageEventView::Loaded(held), id, t, now);
    assert(answers2.last() == StorageEventView::Loaded(held));
    assert(stamps2.last() == now);
    assert(run_state(answers2, stamps2, id, t) == second.0);
    assert(run_actions(answers2, stamps2, id, t) =~= seq![
        UpdateActionView::LoadForUpdate(id),
        second.1,
    ]);
    if answers.len() == 2 {
        assert(answers2 =~= answers);
        assert(stamps2 =~= stamps);
    } else {
        let answers3 = answers.take(3);
        let stamps3 = stamps.take(3);
        assert(answers3.drop_last() =~= answers2);
        assert(stamps3.drop_last() =~= stamps2);
        let third = step(second.0, StorageEventView::Completed, id, t, now);
        assert(answers3.last() == StorageEventView::Completed);
        assert(stamps3.last() == now);
        assert(run_state(answers3, stamps3, id, t) == third.0);
        assert(run_actions(answers3, stamps3, id, t) =~= seq![
            UpdateActionView::LoadForUpdate(id),
            second.1,
            third.1,
        ]);
        assert(answers.drop_last() =~= answers3);
        assert(stamps.drop_last() =~= stamps3);
        let fourth = step(third.0, StorageEventView::Completed, id, t, now);
        assert(answers.last() == StorageEventView::Completed);
        assert(stamps.last() == now);
        assert(run_state(answers, stamps, id, t) == fourth.0);
        assert(run_actions(answers, stamps, id, t) =~= seq![
            UpdateActionView::LoadForUpdate(id),
            second.1,
            third.1,
            fourth.1,
        ]);
    }
}

} // verus!
