use account_ledger::transaction::{
    decode_transactions, empty_history, encode_transactions, CodecError, Transaction,
    MAX_ENCODED_SIZE,
};
use account_ledger::user::{User, UserDb};

fn sample(n: i32) -> Transaction {
    Transaction {
        valor: n,
        descricao: format!("compra {}", n),
        tipo: if n % 2 == 0 { "c".to_string() } else { "d".to_string() },
        realizada_em: format!("2024-02-03 04:05:{:02}", n),
    }
}

fn sample_history() -> [Transaction; 10] {
    let mut transactions = empty_history();
    for n in 0..7 {
        transactions[n] = sample(n as i32 + 1);
    }
    transactions
}

fn with_len(len: u64, text: &[u8]) -> Vec<u8> {
    let mut bytes = len.to_le_bytes().to_vec();
    bytes.extend_from_slice(text);
    bytes
}

#[test]
fn empty_history_has_ten_blank_slots() {
    let transactions = empty_history();
    for t in transactions.iter() {
        assert_eq!(*t, Transaction::default());
    }
}

#[test]
fn blank_history_encodes_to_280_zero_bytes() {
    let encoded = encode_transactions(&empty_history()).unwrap();
    assert_eq!(encoded, vec![0u8; 280]);
}

#[test]
fn encoding_lays_fields_out_in_order() {
    let mut transactions = empty_history();
    transactions[0] = Transaction {
        valor: 258,
        descricao: "ab".to_string(),
        tipo: "c".to_string(),
        realizada_em: "t".to_string(),
    };
    let encoded = encode_transactions(&transactions).unwrap();
    let mut expected = vec![2u8, 1, 0, 0];
    expected.extend(with_len(2, b"ab"));
    expected.extend(with_len(1, b"c"));
    expected.extend(with_len(1, b"t"));
    expected.extend(vec![0u8; 9 * 28]);
    assert_eq!(encoded, expected);
}

#[test]
fn negative_amount_encodes_in_twos_complement() {
    let mut transactions = empty_history();
    transactions[0].valor = -2;
    let encoded = encode_transactions(&transactions).unwrap();
    assert_eq!(&encoded[..4], &[0xFE, 0xFF, 0xFF, 0xFF]);
}

#[test]
fn decoding_gives_back_what_was_encoded() {
    let transactions = sample_history();
    let encoded = encode_transactions(&transactions).unwrap();
    let mut decoded = empty_history();
    assert_eq!(decode_transactions(Some(encoded), &mut decoded), Ok(()));
    assert_eq!(decoded, transactions);
}

#[test]
fn decoding_nothing_leaves_the_slots() {
    let mut transactions = sample_history();
    assert_eq!(decode_transactions(None, &mut transactions), Ok(()));
    assert_eq!(transactions, sample_history());
}

#[test]
fn decoding_garbage_fails_and_leaves_the_slots() {
    let mut transactions = sample_history();
    let result = decode_transactions(Some(vec![1, 2, 3]), &mut transactions);
    assert_eq!(result, Err(CodecError::Decode));
    assert_eq!(transactions, sample_history());
}

#[test]
fn decoding_invalid_text_fails() {
    let mut bytes = vec![0u8; 280];
    bytes[4] = 1;
    bytes.insert(12, 0xFF);
    let mut transactions = empty_history();
    assert_eq!(decode_transactions(Some(bytes), &mut transactions), Err(CodecError::Decode));
}

#[test]
fn decoding_reads_fields_in_order() {
    let mut bytes = vec![7u8, 0, 0, 0];
    bytes.extend(with_len(4, b"loja"));
    bytes.extend(with_len(1, b"d"));
    bytes.extend(with_len(3, b"now"));
    bytes.extend(vec![0u8; 9 * 28]);
    let mut transactions = empty_history();
    assert_eq!(decode_transactions(Some(bytes), &mut transactions), Ok(()));
    assert_eq!(
        transactions[0],
        Transaction {
            valor: 7,
            descricao: "loja".to_string(),
            tipo: "d".to_string(),
            realizada_em: "now".to_string(),
        }
    );
    assert_eq!(transactions[1], Transaction::default());
}

#[test]
fn history_at_the_size_cap_is_refused() {
    let mut transactions = empty_history();
    transactions[0].realizada_em = "x".repeat(MAX_ENCODED_SIZE - 280);
    assert_eq!(encode_transactions(&transactions), Err(CodecError::TooLarge));
    transactions[0].realizada_em = "x".repeat(MAX_ENCODED_SIZE - 281);
    let encoded = encode_transactions(&transactions).unwrap();
    assert_eq!(encoded.len(), MAX_ENCODED_SIZE - 1);
}

#[test]
fn full_history_of_valid_transactions_fits() {
    let mut transactions = empty_history();
    for t in transactions.iter_mut() {
        *t = Transaction {
            valor: i32::MAX,
            descricao: "çççççççççç".to_string(),
            tipo: "c".to_string(),
            realizada_em: "2024-12-31 23:59:59".to_string(),
        };
    }
    let encoded = encode_transactions(&transactions).unwrap();
    assert_eq!(encoded.len(), 10 * (28 + 20 + 1 + 19));
}

#[test]
fn row_and_account_convert_both_ways() {
    let user = User {
        id: 4,
        balance_limit: 10_000_000,
        balance: -523,
        transactions_count: 7,
        last_transaction: 7,
        transactions: sample_history(),
    };
    let row = UserDb::from(user.clone()).unwrap();
    assert_eq!(row.id, 4);
    assert_eq!(row.balance_limit, 10_000_000);
    assert_eq!(row.balance, -523);
    assert_eq!(row.transactions_count, 7);
    assert_eq!(row.last_transaction, 7);
    assert_eq!(
        row.encoded_transactions,
        Some(encode_transactions(&user.transactions).unwrap())
    );
    assert_eq!(User::from(row), Ok(user));
}

#[test]
fn row_without_bytes_is_an_account_with_blank_history() {
    let row = UserDb {
        id: 2,
        balance_limit: 80_000,
        balance: 12,
        transactions_count: 0,
        last_transaction: 0,
        encoded_transactions: None,
    };
    let user = User::from(row).unwrap();
    assert_eq!(user.id, 2);
    assert_eq!(user.balance_limit, 80_000);
    assert_eq!(user.balance, 12);
    assert_eq!(user.transactions, empty_history());
}

#[test]
fn row_with_bad_bytes_is_no_account() {
    let row = UserDb {
        id: 2,
        balance_limit: 80_000,
        balance: 12,
        transactions_count: 0,
        last_transaction: 0,
        encoded_transactions: Some(vec![9; 5]),
    };
    assert_eq!(User::from(row), Err(CodecError::Decode));
}

#[test]
fn account_with_oversized_history_is_no_row() {
    let mut user = User {
        id: 1,
        balance_limit: 0,
        balance: 0,
        transactions_count: 1,
        last_transaction: 1,
        transactions: empty_history(),
    };
    user.transactions[0].descricao = "d".repeat(2000);
    assert_eq!(UserDb::from(user), Err(CodecError::TooLarge));
}

#[test]
fn row_can_be_read_without_giving_it_up() {
    let user = User {
        id: 4,
        balance_limit: 10,
        balance: -5,
        transactions_count: 7,
        last_transaction: 7,
        transactions: sample_history(),
    };
    let row = UserDb::from(user.clone()).unwrap();
    assert_eq!(User::from_row(&row), Ok(user.clone()));
    assert_eq!(User::from_row(&row), User::from(row));
}
