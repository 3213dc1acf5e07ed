//! The statement in its plain form: the balance and the recent
//! transactions as a list, and the body text assembled by hand.

use vstd::prelude::*;
use vstd::string::StringExecFns;

use crate::responses::ResponseType;
use crate::transaction::{digit_between_slashes, Transaction, TransactionView};
use crate::user::{User, UserView};

verus! {

/// The balance part of a statement.
#[derive(Debug, PartialEq, Eq)]
pub struct ExtractResponseSaldo {
    pub total: i32,
    pub data_extrato: String,
    pub limite: u32,
}

/// A statement: the balance, and the recent transactions, newest first.
#[derive(Debug, PartialEq, Eq)]
pub struct ExtractResponse<'a> {
    pub saldo: ExtractResponseSaldo,
    pub ultimas_transacoes: Vec<&'a Transaction>,
}

/// The account id of a `GET /clientes/<id>/extrato` request: the digit at
/// index 14.
pub fn get_id(buffer: &[u8]) -> (id: Option<u32>)
    requires
        buffer@.len() > 15,
    ensures
        match id {
            Some(n) => digit_between_slashes(buffer@, 14) == Some(n as int),
            None => digit_between_slashes(buffer@, 14) is None,
        },
{
    let first_separator = buffer[13];
    let maybe_id = buffer[14];
    let second_separator = buffer[15];
    if first_separator != 47 || second_separator != 47 || maybe_id < 48 || maybe_id > 57 {
        return None;
    }
    Some(maybe_id as u32 - 48)
}

/// Reads a statement request as far as the bytes go. A request shorter
/// than 15 bytes is answered with `UnprocessableEntity`, one without an
/// account id with `NotFound`.
pub fn get_extract(buffer: &[u8; 512], request_size: usize) -> (parsed: Result<
    u32,
    ResponseType,
>)
    ensures
        if request_size < 15 {
            parsed matches Err(ResponseType::UnprocessableEntity)
        } else {
            match digit_between_slashes(buffer@, 14) {
                None => parsed matches Err(ResponseType::NotFound),
                Some(id) => parsed matches Ok(n) && n == id,
            }
        },
{
    if request_size < 15 {
        return Err(ResponseType::UnprocessableEntity);
    }
    match get_id(buffer) {
        Some(id) => Ok(id),
        None => Err(ResponseType::NotFound),
    }
}

/// The meaning of each listed transaction, in the same order.
pub open spec fn listed(transactions: Seq<&Transaction>) -> Seq<TransactionView> {
    Seq::new(transactions.len(), |i: int| transactions[i]@)
}

/// The statement of `user` as of the time `now`: its balance and limit,
/// and its history from the newest to the oldest transaction.
pub fn extract_response<'a>(user: &'a User, now: String) -> (response: ExtractResponse<'a>)
    requires
        user@.ring_wf(),
        user.balance_limit >= 0,
    ensures
        response.saldo.total == user.balance,
        response.saldo.limite == user.balance_limit,
        response.saldo.data_extrato == now,
        listed(response.ultimas_transacoes@) == user@.history(),
{
    let mut ordered_transactions: [Option<&Transaction>; 10] = [None;10];
    user.get_ordered_transactions(&mut ordered_transactions);
    let mut ultimas_transacoes: Vec<&Transaction> = Vec::new();
    let count: usize = user.transactions_count as usize;
    let mut j: usize = 0;
    while j < count
        invariant
            count == user.transactions_count,
            j <= count <= 10,
            ultimas_transacoes@.len() == j,
            forall|k: int|
                0 <= k < count ==> ((#[trigger] ordered_transactions@[k]) matches Some(t) && t@
                    == user@.history()[k]),
            forall|k: int|
                0 <= k < j ==> (#[trigger] ultimas_transacoes@[k])@ == user@.history()[k],
        decreases count - j,
    {
        match ordered_transactions[j] {
            Some(transaction) => {
                ultimas_transacoes.push(transaction);
            },
            None => {},
        }
        j += 1;
    }
    assert(listed(ultimas_transacoes@) =~= user@.history());
    ExtractResponse {
        saldo: ExtractResponseSaldo {
            total: user.balance,
            data_extrato: now,
            limite: user.balance_limit as u32,
        },
        ultimas_transacoes,
    }
}

/// The items of a list, each followed by a comma.
pub open spec fn comma_ended(items: Seq<String>) -> Seq<char>
    decreases items.len(),
{
    if items.len() == 0 {
        Seq::empty()
    } else {
        comma_ended(items.drop_last()) + items.last()@ + ","@
    }
}

/// The body of a statement, given the JSON text of its balance part and
/// of each of its transactions.
pub open spec fn extract_body(saldo: Seq<char>, ultimas_transacoes: Seq<String>) -> Seq<char> {
    "{"@ + "\"saldo\": "@ + saldo + ","@ + "\"ultimas_transacoes\": ["@ + comma_ended(
        ultimas_transacoes,
    ) + "]}"@
}

/// Puts the body of a statement together from the JSON text of its
/// balance part and of each of its transactions. Every transaction is
/// followed by a comma, the last one too.
pub fn serialize_extract_response(saldo: &str, ultimas_transacoes: &Vec<String>) -> (body: String)
    ensures
        body@ == extract_body(saldo@, ultimas_transacoes@),
{
    let mut response_body = String::from_str("{");
    response_body.append("\"saldo\": ");
    response_body.append(saldo);
    response_body.append(",");
    response_body.append("\"ultimas_transacoes\": [");
    let ghost head = response_body@;
    let mut i: usize = 0;
    while i < ultimas_transacoes.len()
        invariant
            i <= ultimas_transacoes@.len(),
            response_body@ == head + comma_ended(ultimas_transacoes@.take(i as int)),
        decreases ultimas_transacoes@.len() - i,
    {
        proof {
            let next = ultimas_transacoes@.take(i + 1);
            assert(next.drop_last() =~= ultimas_transacoes@.take(i as int));
            assert(next.last() == ultimas_transacoes@[i as int]);
        }
        response_body.append(ultimas_transacoes[i].as_str());
        response_body.append(",");
        assert(response_body@ =~= head + comma_ended(ultimas_transacoes@.take(i + 1)));
        i += 1;
    }
    assert(ultimas_transacoes@.take(i as int) =~= ultimas_transacoes@);
    response_body.append("]}");
    assert(response_body@ =~= extract_body(saldo@, ultimas_transacoes@));
    response_body
}

} // verus!
