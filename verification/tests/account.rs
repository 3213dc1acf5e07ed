use account_ledger::transaction::Transaction;
use account_ledger::user::{TransactionResult, User};

fn account(id: i32, limit: i32, balance: i32) -> User {
    User {
        id,
        balance_limit: limit,
        balance,
        transactions_count: 0,
        last_transaction: 0,
        transactions: Default::default(),
    }
}

fn transaction(valor: i32, tipo: &str, descricao: &str) -> Transaction {
    Transaction {
        valor,
        descricao: descricao.to_string(),
        tipo: tipo.to_string(),
        realizada_em: String::new(),
    }
}

fn numbered(n: i32) -> Transaction {
    Transaction {
        valor: n,
        descricao: format!("T{}", n),
        tipo: "c".to_string(),
        realizada_em: format!("2024-01-01 00:00:{:02}", n),
    }
}

fn ordered(user: &User) -> Vec<Transaction> {
    let mut slots: [Option<&Transaction>; 10] = [None; 10];
    user.get_ordered_transactions(&mut slots);
    slots.iter().flatten().map(|t| (*t).clone()).collect()
}

#[test]
fn credit_is_accepted_and_raises_the_balance() {
    let mut user = account(1, 100000, 0);
    let result = user.compute_transaction(&transaction(1000, "c", "loja"));
    assert_eq!(result, TransactionResult::Accepted);
    assert_eq!(user.balance, 1000);
    assert_eq!(user.balance_limit, 100000);
}

#[test]
fn debit_past_the_limit_is_rejected_and_leaves_the_balance() {
    let mut user = account(1, 100000, 0);
    assert_eq!(
        user.compute_transaction(&transaction(1000, "c", "loja")),
        TransactionResult::Accepted
    );
    let result = user.compute_transaction(&transaction(101001, "d", "loja"));
    assert_eq!(result, TransactionResult::LimitExceeded);
    assert_eq!(user.balance, 1000);
}

#[test]
fn debit_down_to_the_limit_is_accepted() {
    let mut user = account(1, 100000, 1000);
    let result = user.compute_transaction(&transaction(101000, "d", "loja"));
    assert_eq!(result, TransactionResult::Accepted);
    assert_eq!(user.balance, -100000);
}

#[test]
fn debit_of_one_at_the_limit_is_rejected() {
    let mut user = account(1, 1000, -1000);
    let result = user.compute_transaction(&transaction(1, "d", "x"));
    assert_eq!(result, TransactionResult::LimitExceeded);
    assert_eq!(user.balance, -1000);
}

#[test]
fn unknown_kind_is_rejected_with_its_byte() {
    let mut user = account(1, 1000, 50);
    user.add_transaction(&numbered(1));
    let before = user.clone();
    let result = user.compute_transaction(&transaction(10, "x", "loja"));
    assert_eq!(result, TransactionResult::InvalidTransactionKind(b'x'));
    assert_eq!(user, before);
}

#[test]
fn longer_kind_reports_its_first_byte() {
    let mut user = account(1, 1000, 0);
    let result = user.compute_transaction(&transaction(10, "cd", "loja"));
    assert_eq!(result, TransactionResult::InvalidTransactionKind(b'c'));
    let result = user.compute_transaction(&transaction(10, "é", "loja"));
    assert_eq!(result, TransactionResult::InvalidTransactionKind(0xC3));
    assert_eq!(user.balance, 0);
}

#[test]
fn empty_kind_reports_zero() {
    let mut user = account(1, 1000, 0);
    let result = user.compute_transaction(&transaction(10, "", "loja"));
    assert_eq!(result, TransactionResult::InvalidTransactionKind(0));
    assert_eq!(user.balance, 0);
}

#[test]
fn empty_description_is_rejected() {
    let mut user = account(1, 1000, 0);
    let result = user.compute_transaction(&transaction(10, "c", ""));
    assert_eq!(result, TransactionResult::InvalidDescription);
    assert_eq!(user.balance, 0);
}

#[test]
fn description_of_eleven_characters_is_rejected() {
    let mut user = account(1, 1000, 0);
    let result = user.compute_transaction(&transaction(10, "c", "12345678901"));
    assert_eq!(result, TransactionResult::InvalidDescription);
    assert_eq!(user.balance, 0);
}

#[test]
fn description_of_ten_characters_is_accepted() {
    let mut user = account(1, 1000, 0);
    let result = user.compute_transaction(&transaction(10, "c", "1234567890"));
    assert_eq!(result, TransactionResult::Accepted);
    assert_eq!(user.balance, 10);
}

#[test]
fn description_length_counts_characters() {
    let mut user = account(1, 1000, 0);
    let result = user.compute_transaction(&transaction(10, "c", "áéíóúâêôãõ"));
    assert_eq!(result, TransactionResult::Accepted);
    let result = user.compute_transaction(&transaction(10, "c", "áéíóúâêôãõç"));
    assert_eq!(result, TransactionResult::InvalidDescription);
    assert_eq!(user.balance, 10);
}

#[test]
fn description_is_checked_before_kind_and_limit() {
    let mut user = account(1, 0, 0);
    let result = user.compute_transaction(&transaction(10, "x", ""));
    assert_eq!(result, TransactionResult::InvalidDescription);
    let result = user.compute_transaction(&transaction(10, "d", ""));
    assert_eq!(result, TransactionResult::InvalidDescription);
}

#[test]
fn kind_is_checked_before_the_limit() {
    let mut user = account(1, 0, 0);
    let result = user.compute_transaction(&transaction(10, "debit", "loja"));
    assert_eq!(result, TransactionResult::InvalidTransactionKind(b'd'));
}

#[test]
fn rejection_changes_nothing() {
    let mut user = account(3, 100, -40);
    for n in 1..=4 {
        user.add_transaction(&numbered(n));
    }
    let before = user.clone();
    assert_eq!(
        user.compute_transaction(&transaction(61, "d", "loja")),
        TransactionResult::LimitExceeded
    );
    assert_eq!(user, before);
    assert_eq!(
        user.compute_transaction(&transaction(1, "c", "")),
        TransactionResult::InvalidDescription
    );
    assert_eq!(user, before);
    assert_eq!(
        user.compute_transaction(&transaction(1, "?", "loja")),
        TransactionResult::InvalidTransactionKind(b'?')
    );
    assert_eq!(user, before);
    assert_eq!(ordered(&user), ordered(&before));
}

#[test]
fn balance_stays_within_the_limit_over_many_transactions() {
    let mut user = account(2, 500, 0);
    let offered = [
        (300, "d"),
        (300, "d"),
        (100, "c"),
        (300, "d"),
        (1, "d"),
        (1000, "c"),
        (1500, "d"),
        (1, "d"),
    ];
    let expected = [-300, -300, -200, -500, -500, 500, 500, 499];
    for (i, (valor, tipo)) in offered.iter().enumerate() {
        let t = transaction(*valor, tipo, "loja");
        if user.compute_transaction(&t) == TransactionResult::Accepted {
            user.add_transaction(&t);
        }
        assert_eq!(user.balance, expected[i]);
        assert!(user.balance >= -user.balance_limit);
    }
    assert_eq!(user.transactions_count, 5);
}

#[test]
fn credit_then_debit_from_zero_ends_at_zero() {
    let mut user = account(1, 0, 0);
    assert_eq!(
        user.compute_transaction(&transaction(100, "c", "in")),
        TransactionResult::Accepted
    );
    assert_eq!(user.balance, 100);
    assert_eq!(
        user.compute_transaction(&transaction(100, "d", "out")),
        TransactionResult::Accepted
    );
    assert_eq!(user.balance, 0);
}

#[test]
fn debit_then_credit_from_zero_rejects_the_debit() {
    let mut user = account(1, 0, 0);
    assert_eq!(
        user.compute_transaction(&transaction(100, "d", "out")),
        TransactionResult::LimitExceeded
    );
    assert_eq!(user.balance, 0);
    assert_eq!(
        user.compute_transaction(&transaction(100, "c", "in")),
        TransactionResult::Accepted
    );
    assert_eq!(user.balance, 100);
}

#[test]
fn history_of_an_empty_account_is_empty() {
    let user = account(1, 0, 0);
    assert!(ordered(&user).is_empty());
}

#[test]
fn add_transaction_copies_the_transaction() {
    let mut user = account(1, 0, 0);
    let t = numbered(7);
    user.add_transaction(&t);
    assert_eq!(user.transactions[0], t);
    assert_eq!(user.transactions_count, 1);
    assert_eq!(user.last_transaction, 1);
    assert_eq!(user.balance, 0);
    assert_eq!(user.id, 1);
}

#[test]
fn thirteen_transactions_leave_the_ten_newest() {
    let mut user = account(1, 0, 0);
    for n in 1..=13 {
        user.add_transaction(&numbered(n));
    }
    let expected: Vec<Transaction> = (4..=13).rev().map(numbered).collect();
    assert_eq!(ordered(&user), expected);
    assert_eq!(user.transactions_count, 10);
    assert_eq!(user.last_transaction, 3);
}

#[test]
fn ring_fills_and_then_wraps() {
    let mut user = account(1, 0, 0);
    for n in 1..=9 {
        user.add_transaction(&numbered(n));
    }
    assert_eq!(user.transactions_count, 9);
    assert_eq!(user.last_transaction, 9);
    assert_eq!(ordered(&user), (1..=9).rev().map(numbered).collect::<Vec<_>>());

    user.add_transaction(&numbered(10));
    assert_eq!(user.transactions_count, 10);
    assert_eq!(user.last_transaction, 0);
    assert_eq!(user.transactions[9], numbered(10));
    assert_eq!(ordered(&user), (1..=10).rev().map(numbered).collect::<Vec<_>>());

    user.add_transaction(&numbered(11));
    assert_eq!(user.transactions_count, 10);
    assert_eq!(user.last_transaction, 1);
    assert_eq!(user.transactions[0], numbered(11));
    assert_eq!(ordered(&user), (2..=11).rev().map(numbered).collect::<Vec<_>>());
}

#[test]
fn ordered_list_leaves_unused_slots_alone() {
    let mut user = account(1, 0, 0);
    user.add_transaction(&numbered(1));
    user.add_transaction(&numbered(2));
    let marker = numbered(99);
    let mut slots: [Option<&Transaction>; 10] = [Some(&marker); 10];
    user.get_ordered_transactions(&mut slots);
    assert_eq!(slots[0], Some(&numbered(2)));
    assert_eq!(slots[1], Some(&numbered(1)));
    for slot in &slots[2..] {
        assert_eq!(*slot, Some(&marker));
    }
}

#[test]
fn history_order_is_insertion_order_not_time_order() {
    let mut user = account(1, 0, 0);
    let mut late = numbered(1);
    late.realizada_em = "2030-01-01 00:00:00".to_string();
    let mut early = numbered(2);
    early.realizada_em = "2020-01-01 00:00:00".to_string();
    user.add_transaction(&late);
    user.add_transaction(&early);
    assert_eq!(ordered(&user), vec![early, late]);
}

#[test]
fn well_formed_accounts_are_recognised() {
    assert!(account(1, 0, 0).is_wf());
    assert!(account(1, 1000, -1000).is_wf());
    assert!(!account(0, 1000, 0).is_wf());
    assert!(!account(1, -1, 0).is_wf());
    assert!(!account(1, 1000, -1001).is_wf());
    let mut user = account(1, 0, 0);
    user.transactions_count = 3;
    assert!(!user.is_wf());
    user.last_transaction = 3;
    assert!(user.is_wf());
    user.transactions_count = 10;
    assert!(user.is_wf());
    user.last_transaction = 10;
    assert!(!user.is_wf());
    user.last_transaction = 9;
    user.transactions_count = 11;
    assert!(!user.is_wf());
    user.transactions_count = -1;
    assert!(!user.is_wf());
}

#[test]
fn blank_transaction_is_all_empty() {
    let t = Transaction::default();
    assert_eq!(t.valor, 0);
    assert_eq!(t.descricao, "");
    assert_eq!(t.tipo, "");
    assert_eq!(t.realizada_em, "");
}

#[test]
fn amounts_that_cannot_be_taken_are_told_apart() {
    let user = account(1, 10, i32::MAX - 5);
    assert!(user.can_take(&transaction(5, "c", "loja")));
    assert!(!user.can_take(&transaction(6, "c", "loja")));
    assert!(user.can_take(&transaction(6, "d", "loja")));
    assert!(user.can_take(&transaction(6, "c", "")));
    assert!(user.can_take(&transaction(6, "x", "loja")));
    assert!(!user.can_take(&transaction(0, "d", "loja")));
    assert!(!user.can_take(&transaction(-1, "c", "loja")));
}

#[test]
fn balance_can_reach_the_largest_number() {
    let mut user = account(1, 10, i32::MAX - 5);
    assert_eq!(
        user.compute_transaction(&transaction(5, "c", "loja")),
        TransactionResult::Accepted
    );
    assert_eq!(user.balance, i32::MAX);
}

#[test]
fn debit_from_the_lowest_balance_is_decided_without_overflow() {
    let mut user = account(1, i32::MAX, -i32::MAX);
    assert_eq!(
        user.compute_transaction(&transaction(i32::MAX, "d", "loja")),
        TransactionResult::LimitExceeded
    );
    assert_eq!(user.balance, -i32::MAX);
    assert_eq!(
        user.compute_transaction(&transaction(i32::MAX, "c", "loja")),
        TransactionResult::Accepted
    );
    assert_eq!(user.balance, 0);
}
