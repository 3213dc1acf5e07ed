//! Transactions as submitted by clients and as kept in an account's history.

use vstd::prelude::*;

use crate::db::UpdateUserResult;
use crate::responses::ResponseType;

verus! {

/// One debit or credit.
#[derive(Debug, PartialEq, Eq)]
pub struct Transaction {
    /// Amount, in the smallest currency unit.
    pub valor: i32,
    /// Free text chosen by the client.
    pub descricao: String,
    /// `"c"` for a credit, `"d"` for a debit.
    pub tipo: String,
    /// When the ledger accepted the transaction.
    pub realizada_em: String,
}

/// What a [`Transaction`] means: its amount and the text of its three fields.
pub struct TransactionView {
    pub valor: int,
    pub descricao: Seq<char>,
    pub tipo: Seq<char>,
    pub realizada_em: Seq<char>,
}

impl View for Transaction {
    type V = TransactionView;

    open spec fn view(&self) -> TransactionView {
        TransactionView {
            valor: self.valor as int,
            descricao: self.descricao@,
            tipo: self.tipo@,
            realizada_em: self.realizada_em@,
        }
    }
}

impl TransactionView {
    /// The transaction that fills a history slot nothing was written to yet.
    pub open spec fn blank() -> TransactionView {
        TransactionView {
            valor: 0,
            descricao: Seq::empty(),
            tipo: Seq::empty(),
            realizada_em: Seq::empty(),
        }
    }
}

/// The meaning of each transaction of a sequence, in the same order.
pub open spec fn views_of(transactions: Seq<Transaction>) -> Seq<TransactionView> {
    Seq::new(transactions.len(), |i: int| transactions[i]@)
}

impl Clone for Transaction {
    fn clone(&self) -> (copy: Transaction)
        ensures
            copy == *self,
    {
        Transaction {
            valor: self.valor,
            descricao: self.descricao.clone(),
            tipo: self.tipo.clone(),
            realizada_em: self.realizada_em.clone(),
        }
    }
}

impl Default for Transaction {
    fn default() -> (t: Transaction)
        ensures
            t@ == TransactionView::blank(),
    {
        Transaction {
            valor: 0,
            descricao: String::new(),
            tipo: String::new(),
            realizada_em: String::new(),
        }
    }
}

/// Ten slots that nothing was written to yet.
pub open spec fn blank_history() -> Seq<TransactionView> {
    Seq::new(10, |i: int| TransactionView::blank())
}

/// A history ring with every slot blank.
pub fn empty_history() -> (transactions: [Transaction; 10])
    ensures
        views_of(transactions@) == blank_history(),
{
    let transactions = [
        Transaction::default(),
        Transaction::default(),
        Transaction::default(),
        Transaction::default(),
        Transaction::default(),
        Transaction::default(),
        Transaction::default(),
        Transaction::default(),
        Transaction::default(),
        Transaction::default(),
    ];
    assert(views_of(transactions@) =~= blank_history());
    transactions
}

/// The account id written as one decimal digit at index `at` of a
/// request line, between two slashes (byte 47); the digits are the bytes
/// 48 to 57. `None` when that is not what stands there.
pub open spec fn digit_between_slashes(request: Seq<u8>, at: int) -> Option<int> {
    if request[at - 1] == 47 && request[at + 1] == 47 && 48 <= request[at] <= 57 {
        Some(request[at] - 48)
    } else {
        None
    }
}

/// The index of the first `byte` in `bytes` at or after `from`.
pub open spec fn find_from(bytes: Seq<u8>, byte: u8, from: int) -> Option<int>
    decreases bytes.len() - from,
{
    if from < 0 || from >= bytes.len() {
        None
    } else if bytes[from] == byte {
        Some(from)
    } else {
        find_from(bytes, byte, from + 1)
    }
}

/// What [`find_from`] finds is the first occurrence, and it finds one
/// whenever there is one.
pub proof fn lemma_find_from(bytes: Seq<u8>, byte: u8, from: int)
    requires
        0 <= from,
    ensures
        match find_from(bytes, byte, from) {
            Some(i) => from <= i < bytes.len() && bytes[i] == byte && forall|k: int|
                from <= k < i ==> bytes[k] != byte,
            None => forall|k: int| from <= k < bytes.len() ==> bytes[k] != byte,
        },
    decreases bytes.len() - from,
{
    if from < bytes.len() && bytes[from] != byte {
        lemma_find_from(bytes, byte, from + 1);
    }
}

/// Where the JSON body of a request lies: from the first `{` (byte 123)
/// up to and including the first `}` (byte 125) after it, as a start
/// index and an end index one past the brace. `None` when either brace is
/// missing.
pub open spec fn body_of(request: Seq<u8>) -> Option<(int, int)> {
    match find_from(request, 123, 0) {
        None => None,
        Some(start) => match find_from(request, 125, start + 1) {
            None => None,
            Some(close) => Some((start, close + 1)),
        },
    }
}

/// The index of the first `byte` in `bytes` at or after `from`.
fn position(bytes: &[u8], byte: u8, from: usize) -> (found: Option<usize>)
    ensures
        match found {
            Some(i) => i < bytes@.len() && find_from(bytes@, byte, from as int) == Some(i as int),
            None => find_from(bytes@, byte, from as int) is None,
        },
{
    let mut i: usize = from;
    while i < bytes.len()
        invariant
            from <= i,
            find_from(bytes@, byte, from as int) == find_from(bytes@, byte, i as int),
        decreases bytes.len() - i,
    {
        if bytes[i] == byte {
            return Some(i);
        }
        i += 1;
    }
    None
}

/// Finds the JSON body of a request: see [`body_of`].
pub fn get_body(request: &[u8]) -> (bounds: Option<(usize, usize)>)
    ensures
        match bounds {
            Some((start, end)) => body_of(request@) == Some((start as int, end as int)),
            None => body_of(request@) is None,
        },
{
    let size = request.len();
    let body_start = match position(request, 123, 0) {
        Some(index) => index,
        None => {
            return None;
        },
    };
    let body_end = match position(request, 125, body_start + 1) {
        Some(index) => index,
        None => {
            return None;
        },
    };
    assert(body_start < size && body_end < size);
    Some((body_start, body_end + 1))
}

/// The account id of a `POST /clientes/<id>/transacoes` request: the
/// digit at index 15.
pub fn get_id(request: &[u8]) -> (id: Option<i32>)
    requires
        request@.len() > 16,
    ensures
        match id {
            Some(n) => digit_between_slashes(request@, 15) == Some(n as int),
            None => digit_between_slashes(request@, 15) is None,
        },
{
    let first_separator = request[14];
    let maybe_id = request[15];
    let second_separator = request[16];
    if first_separator != 47 || second_separator != 47 || maybe_id < 48 || maybe_id > 57 {
        return None;
    }
    Some((maybe_id - 48) as i32)
}

/// The shortest request that can hold a transaction: a request line of
/// 16 bytes and a body of 38.
pub const MINIMUM_POST_REQUEST_SIZE: usize = 54;

/// What a well-formed POST request asks for.
#[derive(Clone, Copy, Debug, PartialEq, Eq)]
pub struct PostRequest {
    /// The account the transaction is for.
    pub id: i32,
    /// Index of the body's opening brace.
    pub body_start: usize,
    /// Index one past the body's closing brace.
    pub body_end: usize,
}

/// What a client is told after its transaction was stored.
#[derive(Clone, Copy, Debug, PartialEq, Eq)]
pub struct PostTransactionResponse {
    pub limite: i32,
    pub saldo: i32,
}

/// Reads a POST request as far as the bytes go: its size, the account id
/// and the place of its body. `request` is the buffer the request was read
/// into, `request_size` the number of bytes read. Whatever is wrong with
/// one of them is answered with `UnprocessableEntity`.
pub fn post(request: &[u8; 512], request_size: usize) -> (parsed: Result<
    PostRequest,
    ResponseType,
>)
    ensures
        match parsed {
            Ok(found) => {
                &&& request_size >= MINIMUM_POST_REQUEST_SIZE
                &&& digit_between_slashes(request@, 15) == Some(found.id as int)
                &&& body_of(request@) == Some((found.body_start as int, found.body_end as int))
            },
            Err(response) => {
                &&& response is UnprocessableEntity
                &&& (request_size < MINIMUM_POST_REQUEST_SIZE || digit_between_slashes(
                    request@,
                    15,
                ) is None || body_of(request@) is None)
            },
        },
{
    if request_size < MINIMUM_POST_REQUEST_SIZE {
        return Err(ResponseType::UnprocessableEntity);
    }
    let id = match get_id(request) {
        Some(id) => id,
        None => {
            return Err(ResponseType::UnprocessableEntity);
        },
    };
    match get_body(request) {
        Some((body_start, body_end)) => Ok(PostRequest { id, body_start, body_end }),
        None => Err(ResponseType::UnprocessableEntity),
    }
}

/// The transaction a client submitted, from the three fields of its
/// body. An amount that is not positive never reaches the ledger: there
/// is no transaction then. The time of acceptance is left empty; the
/// ledger fills it in.
pub fn transaction_request(valor: i32, descricao: String, tipo: String) -> (submitted: Option<
    Transaction,
>)
    ensures
        match submitted {
            Some(t) => valor > 0 && t@ == (TransactionView {
                valor: valor as int,
                descricao: descricao@,
                tipo: tipo@,
                realizada_em: Seq::empty(),
            }),
            None => valor <= 0,
        },
{
    if valor <= 0 {
        return None;
    }
    Some(Transaction { valor, descricao, tipo, realizada_em: String::new() })
}

/// What to tell the client once the update is over: the new limit and
/// balance to put into the body after an accepted transaction, or the
/// response that reports why there is none.
pub fn post_response(result: UpdateUserResult) -> (answer: Result<
    PostTransactionResponse,
    ResponseType,
>)
    ensures
        match result {
            UpdateUserResult::Accepted(user) => answer matches Ok(body) && body.limite
                == user.balance_limit && body.saldo == user.balance,
            UpdateUserResult::Unprocessable(_) => answer matches Err(
                ResponseType::UnprocessableEntity,
            ),
            UpdateUserResult::NotFound => answer matches Err(ResponseType::NotFound),
            UpdateUserResult::InternalError(error) => answer matches Err(
                ResponseType::InternalServerError(text),
            ) && text == error,
        },
{
    match result {
        UpdateUserResult::Accepted(user) => Ok(
            PostTransactionResponse { limite: user.balance_limit, saldo: user.balance },
        ),
        UpdateUserResult::Unprocessable(_) => Err(ResponseType::UnprocessableEntity),
        UpdateUserResult::NotFound => Err(ResponseType::NotFound),
        UpdateUserResult::InternalError(error) => Err(ResponseType::InternalServerError(error)),
    }
}

/// An encoded history must stay below this many bytes.
pub const MAX_ENCODED_SIZE: usize = 1000;

/// Why a history could not be turned into bytes or back.
#[derive(Clone, Copy, Debug, PartialEq, Eq, Structural)]
pub enum CodecError {
    /// The encoder refused the history.
    Encode,
    /// The encoding has `MAX_ENCODED_SIZE` bytes or more.
    TooLarge,
    /// The bytes are not the encoding of a history.
    Decode,
}

/// `bincode::ErrorKind`, the error of the encoder and the decoder. It is
/// carried from the call to the place that reports a [`CodecError`], and
/// never looked into.
#[verifier::external_type_specification]
#[verifier::external_body]
pub struct ExBincodeErrorKind(bincode::ErrorKind);

/// The bytes `bincode::serialize` produces for a history of ten
/// transactions, or `None` where it reports an error.
pub uninterp spec fn bincode_encoding(transactions: Seq<TransactionView>) -> Option<Seq<u8>>;

/// The history of ten transactions `bincode::deserialize` reads from
/// `bytes`, or `None` where it reports an error.
pub uninterp spec fn bincode_decoding(bytes: Seq<u8>) -> Option<Seq<TransactionView>>;

/// Calls `bincode::serialize` on the ten transactions, each handed over as
/// the tuple of its four fields in declaration order.
///
/// Trusted: the outcome depends on the transactions' contents alone, and
/// is the one [`bincode_encoding`] names.
#[verifier::external_body]
fn bincode_serialize(transactions: &[Transaction; 10]) -> (encoded: Result<
    Vec<u8>,
    Box<bincode::ErrorKind>,
>)
    ensures
        match encoded {
            Ok(bytes) => bincode_encoding(views_of(transactions@)) == Some(bytes@),
            Err(_) => bincode_encoding(views_of(transactions@)) is None,
        },
{
    let rows: [(i32, &str, &str, &str); 10] = core::array::from_fn(
        |i| {
            let t = &transactions[i];
            (t.valor, t.descricao.as_str(), t.tipo.as_str(), t.realizada_em.as_str())
        },
    );
    bincode::serialize(&rows)
}

/// Calls `bincode::deserialize` for ten tuples of an `i32` and three
/// strings, and hands each tuple back as a [`Transaction`].
///
/// Trusted: the outcome depends on the bytes alone, and is the one
/// [`bincode_decoding`] names.
#[verifier::external_body]
fn bincode_deserialize(bytes: &[u8]) -> (decoded: Result<
    [Transaction; 10],
    Box<bincode::ErrorKind>,
>)
    ensures
        match decoded {
            Ok(transactions) => bincode_decoding(bytes@) == Some(views_of(transactions@)),
            Err(_) => bincode_decoding(bytes@) is None,
        },
{
    let rows: [(i32, String, String, String); 10] = bincode::deserialize(bytes)?;
    Ok(
        rows.map(
            |(valor, descricao, tipo, realizada_em)| Transaction {
                valor,
                descricao,
                tipo,
                realizada_em,
            },
        ),
    )
}

/// Encodes a history for storage.
///
/// Fails when the encoder reports an error, and when the encoding would
/// not fit the storage column.
pub fn encode_transactions(transactions: &[Transaction; 10]) -> (encoded: Result<
    Vec<u8>,
    CodecError,
>)
    ensures
        match bincode_encoding(views_of(transactions@)) {
            None => encoded == Err::<Vec<u8>, CodecError>(CodecError::Encode),
            Some(bytes) => if bytes.len() < MAX_ENCODED_SIZE {
                encoded matches Ok(v) && v@ == bytes
            } else {
                encoded == Err::<Vec<u8>, CodecError>(CodecError::TooLarge)
            },
        },
{
    match bincode_serialize(transactions) {
        Ok(encoded_transactions) => {
            if encoded_transactions.len() < MAX_ENCODED_SIZE {
                Ok(encoded_transactions)
            } else {
                Err(CodecError::TooLarge)
            }
        },
        Err(_) => Err(CodecError::Encode),
    }
}

/// The history that `bytes` encode.
pub fn decode_history(bytes: &[u8]) -> (decoded: Result<[Transaction; 10], CodecError>)
    ensures
        match bincode_decoding(bytes@) {
            Some(stored) => decoded matches Ok(transactions) && views_of(transactions@) == stored,
            None => decoded == Err::<[Transaction; 10], CodecError>(CodecError::Decode),
        },
{
    match bincode_deserialize(bytes) {
        Ok(stored) => Ok(stored),
        Err(_) => Err(CodecError::Decode),
    }
}

/// Reads a stored history into `transactions`.
///
/// With nothing stored the slots keep what they hold. Bytes that are not
/// the encoding of a history are reported and leave the slots untouched.
pub fn decode_transactions(
    encoded_transactions: Option<Vec<u8>>,
    transactions: &mut [Transaction; 10],
) -> (decoded: Result<(), CodecError>)
    ensures
        match encoded_transactions {
            None => decoded is Ok && *final(transactions) == *old(transactions),
            Some(bytes) => match bincode_decoding(bytes@) {
                Some(stored) => decoded is Ok && views_of(final(transactions)@) == stored,
                None => decoded == Err::<(), CodecError>(CodecError::Decode)
                    && *final(transactions) == *old(transactions),
            },
        },
{
    match encoded_transactions {
        None => Ok(()),
        Some(bytes) => match decode_history(bytes.as_slice()) {
            Ok(stored) => {
                *transactions = stored;
                Ok(())
            },
            Err(e) => Err(e),
        },
    }
}

} // verus!
