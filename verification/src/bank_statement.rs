//! The statement of an account: its balance and limit, and its recent
//! transactions from the newest to the oldest.

use vstd::prelude::*;
use vstd::string::StringExecFns;

use crate::clock::local_timestamp;
use crate::db::ReadUserResult;
use crate::responses::ResponseType;
use crate::transaction::{
    blank_history, digit_between_slashes, empty_history, Transaction, TransactionView,
};
use crate::user::{User, UserView};

verus! {

/// The balance part of a statement.
#[derive(Debug, PartialEq, Eq)]
pub struct StatementResponseSaldo {
    pub total: i32,
    pub data_extrato: String,
    pub limite: i32,
}

/// A statement: the balance, and the live history entries, newest first,
/// in the leading slots; the slots after them are `None`.
#[derive(Debug, PartialEq, Eq)]
pub struct StatementResponse<'a> {
    pub saldo: StatementResponseSaldo,
    pub ultimas_transacoes: [Option<&'a Transaction>; 10],
}

/// A request shorter than this cannot ask for a statement.
pub const MINIMUM_GET_REQUEST_SIZE: usize = 15;

/// The account id of a `GET /clientes/<id>/extrato` request: the digit at
/// index 14.
pub fn get_id(request: &[u8]) -> (id: Option<i32>)
    requires
        request@.len() > 15,
    ensures
        match id {
            Some(n) => digit_between_slashes(request@, 14) == Some(n as int),
            None => digit_between_slashes(request@, 14) is None,
        },
{
    let first_separator = request[13];
    let maybe_id = request[14];
    let second_separator = request[15];
    if first_separator != 47 || second_separator != 47 || maybe_id < 48 || maybe_id > 57 {
        return None;
    }
    Some((maybe_id - 48) as i32)
}

/// The record to read an account into: the id, and nothing else yet.
pub open spec fn unread_user(id: int) -> UserView {
    UserView {
        id,
        balance_limit: 0,
        balance: 0,
        transactions_count: 0,
        last_transaction: 0,
        transactions: blank_history(),
    }
}

/// Reads a GET request as far as the bytes go, and hands out the record
/// to read the account into. A request that is too short is answered with
/// `UnprocessableEntity`, one without an account id with `NotFound`.
pub fn get(request: &[u8; 512], request_size: usize) -> (parsed: Result<User, ResponseType>)
    ensures
        if request_size < MINIMUM_GET_REQUEST_SIZE {
            parsed matches Err(ResponseType::UnprocessableEntity)
        } else {
            match digit_between_slashes(request@, 14) {
                None => parsed matches Err(ResponseType::NotFound),
                Some(id) => parsed matches Ok(user) && user@ == unread_user(id),
            }
        },
{
    if request_size < MINIMUM_GET_REQUEST_SIZE {
        return Err(ResponseType::UnprocessableEntity);
    }
    let id = match get_id(request) {
        Some(id) => id,
        None => {
            return Err(ResponseType::NotFound);
        },
    };
    Ok(
        User {
            id,
            balance_limit: 0,
            balance: 0,
            transactions_count: 0,
            last_transaction: 0,
            transactions: empty_history(),
        },
    )
}

/// Whether `answer` is what is said of an account that was read into
/// `user`, at the time `now`, when the read went as `read` says.
///
/// A read that failed is answered with its own response. An account
/// whose ring is inconsistent (see [`UserView::ring_wf`]) has no
/// statement: storage is reported as failing. Otherwise the answer is the
/// statement: the balance, the limit and `now`, then the history, newest
/// first, in the leading slots, and `None` in the slots after it.
pub open spec fn is_statement(
    read: ReadUserResult,
    user: &User,
    now: Seq<char>,
    answer: Result<StatementResponse, ResponseType>,
) -> bool {
    match read {
        ReadUserResult::NotFound => answer matches Err(ResponseType::NotFound),
        ReadUserResult::InternalError(error) => answer matches Err(
            ResponseType::InternalServerError(text),
        ) && text == error,
        ReadUserResult::Found => if user@.ring_wf() {
            &&& answer matches Ok(response)
            &&& response.saldo.total == user.balance
            &&& response.saldo.limite == user.balance_limit
            &&& response.saldo.data_extrato@ == now
            &&& forall|j: int|
                0 <= j < user.transactions_count ==> (
                (#[trigger] response.ultimas_transacoes@[j]) matches Some(t)
                    && *t == user.transactions@[user@.slot_of(j)]
                    && t@ == user@.history()[j])
            &&& forall|j: int|
                user.transactions_count <= j < 10
                    ==> (#[trigger] response.ultimas_transacoes@[j]) is None
        } else {
            answer matches Err(ResponseType::InternalServerError(text)) && text@
                == "Stored account is inconsistent"@
        },
    }
}

/// The statement of an account that was read, as of the time `now`: see
/// [`is_statement`].
pub fn statement<'a>(read: ReadUserResult, user: &'a User, now: String) -> (answer: Result<
    StatementResponse<'a>,
    ResponseType,
>)
    ensures
        is_statement(read, user, now@, answer),
{
    match read {
        ReadUserResult::NotFound => Err(ResponseType::NotFound),
        ReadUserResult::InternalError(error) => Err(ResponseType::InternalServerError(error)),
        ReadUserResult::Found => {
            if !user.is_ring_wf() {
                return Err(
                    ResponseType::InternalServerError(
                        String::from_str("Stored account is inconsistent"),
                    ),
                );
            }
            let mut ordered_transactions: [Option<&Transaction>; 10] = [None;10];
            user.get_ordered_transactions(&mut ordered_transactions);
            Ok(
                StatementResponse {
                    saldo: StatementResponseSaldo {
                        total: user.balance,
                        data_extrato: now,
                        limite: user.balance_limit,
                    },
                    ultimas_transacoes: ordered_transactions,
                },
            )
        },
    }
}

/// The statement of an account that was read, as of the local time at
/// which this is called: see [`is_statement`]. The clock is read only
/// when there is a statement to date.
pub fn statement_now<'a>(read: ReadUserResult, user: &'a User) -> (answer: Result<
    StatementResponse<'a>,
    ResponseType,
>)
    ensures
        exists|now: Seq<char>| #[trigger] is_statement(read, user, now, answer),
{
    let now = match &read {
        ReadUserResult::Found => local_timestamp(),
        _ => String::new(),
    };
    let ghost stamp = now@;
    let answer = statement(read, user, now);
    assert(is_statement(read, user, stamp, answer));
    answer
}

/// How many leading slots of a statement's list are filled: the index of
/// the first `None`, or ten when there is none.
pub open spec fn filled_prefix(slots: Seq<Option<&Transaction>>) -> int
    decreases slots.len(),
{
    if slots.len() == 0 || slots[0] is None {
        0
    } else {
        1 + filled_prefix(slots.drop_first())
    }
}

/// The number of transactions to write out for a statement: see
/// [`filled_prefix`].
pub fn serialize_transactions(v: &[Option<&Transaction>; 10]) -> (count: usize)
    ensures
        count == filled_prefix(v@),
        count <= 10,
        forall|j: int| 0 <= j < count ==> (#[trigger] v@[j]) is Some,
        count < 10 ==> v@[count as int] is None,
{
    let mut i: usize = 0;
    assert(v@.skip(0) =~= v@);
    while i < 10
        invariant
            i <= 10,
            forall|j: int| 0 <= j < i ==> (#[trigger] v@[j]) is Some,
            filled_prefix(v@) == i + filled_prefix(v@.skip(i as int)),
        decreases 10 - i,
    {
        if v[i].is_none() {
            assert(v@.skip(i as int)[0] == v@[i as int]);
            return i;
        }
        proof {
            assert(v@.skip(i as int)[0] == v@[i as int]);
            assert(v@.skip(i as int).drop_first() =~= v@.skip(i + 1));
        }
        i += 1;
    }
    assert(v@.skip(10).len() == 0);
    i
}

} // verus!
