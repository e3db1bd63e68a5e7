use concordium_std::{AccountAddress, Address, ContractAddress};
use todo_app::payment::{check_payment, min_payment, MIN_PAYMENT};
use todo_app::{MainTask, ReceiveError, SubTask, TaskStore, User};

fn alice() -> Address {
    Address::Account(AccountAddress([1u8; 32]))
}

fn bob() -> Address {
    Address::Account(AccountAddress([2u8; 32]))
}

fn contract() -> Address {
    Address::Contract(ContractAddress::new(7, 0))
}

fn text(s: &str) -> String {
    String::from(s)
}

#[test]
fn a_new_store_is_empty() {
    let store = TaskStore::new();
    assert_eq!(store.view_all(), vec![]);
    assert_eq!(store.get_user_todo(alice()), (None, alice()));
}

#[test]
fn buy_milk_scenario() {
    let mut store = TaskStore::new();
    assert_eq!(store.create_task(alice(), 2_000_000, text("buy milk")), Ok(()));
    let after_task = User {
        all_task: vec![MainTask { id: alice(), description: text("buy milk"), tasks: vec![] }],
    };
    assert_eq!(store.view_all(), vec![(alice(), after_task)]);

    store.create_sub_task(alice(), text("2%"));
    let after_sub_task = User {
        all_task: vec![MainTask {
            id: alice(),
            description: text("buy milk"),
            tasks: vec![SubTask { id: 0, description: text("2%"), completed: false }],
        }],
    };
    assert_eq!(store.view_all(), vec![(alice(), after_sub_task)]);

    assert_eq!(store.mark_as_completed(alice(), 0, 0), Ok(()));
    let after_marking = User {
        all_task: vec![MainTask {
            id: alice(),
            description: text("buy milk"),
            tasks: vec![SubTask { id: 0, description: text("2%"), completed: true }],
        }],
    };
    assert_eq!(store.view_all(), vec![(alice(), after_marking.clone())]);
    assert_eq!(store.get_user_todo(alice()), (Some(after_marking), alice()));
}

#[test]
fn a_payment_of_nothing_buys_nothing() {
    let mut store = TaskStore::new();
    assert_eq!(
        store.create_task(bob(), 0, text("free lunch")),
        Err(ReceiveError::InsufficientPayment)
    );
    assert_eq!(store.get_user_todo(bob()), (None, bob()));
    assert_eq!(store.view_all(), vec![]);
}

#[test]
fn the_minimum_is_one_ccd() {
    assert_eq!(MIN_PAYMENT, 1_000_000);
    assert_eq!(min_payment(), 1_000_000);
}

#[test]
fn a_payment_has_to_exceed_the_minimum() {
    assert_eq!(check_payment(0), Err(ReceiveError::InsufficientPayment));
    assert_eq!(check_payment(2), Err(ReceiveError::InsufficientPayment));
    assert_eq!(check_payment(999_999), Err(ReceiveError::InsufficientPayment));
    assert_eq!(check_payment(1_000_000), Err(ReceiveError::InsufficientPayment));
    assert_eq!(check_payment(1_000_001), Ok(()));
    assert_eq!(check_payment(u64::MAX), Ok(()));
}

#[test]
fn a_refused_payment_leaves_the_store_as_it_was() {
    let mut store = TaskStore::new();
    store.create_task(alice(), 5_000_000, text("first")).unwrap();
    store.create_sub_task(alice(), text("step"));
    let before = store.view_all();
    assert_eq!(
        store.create_task(alice(), 1_000_000, text("second")),
        Err(ReceiveError::InsufficientPayment)
    );
    assert_eq!(
        store.create_task(bob(), 999, text("third")),
        Err(ReceiveError::InsufficientPayment)
    );
    assert_eq!(store.view_all(), before);
}

#[test]
fn a_first_task_makes_one_user_with_one_task() {
    let mut store = TaskStore::new();
    store.create_task(alice(), 1_000_001, text("alpha")).unwrap();
    let before_bob = store.get_user_todo(alice());
    store.create_task(bob(), 3_000_000, text("beta")).unwrap();
    let all = store.view_all();
    assert_eq!(all.len(), 2);
    assert_eq!(all[1].0, bob());
    assert_eq!(
        all[1].1,
        User { all_task: vec![MainTask { id: bob(), description: text("beta"), tasks: vec![] }] }
    );
    assert_eq!(store.get_user_todo(alice()), before_bob);
}

#[test]
fn further_tasks_go_to_the_end_of_the_list() {
    let mut store = TaskStore::new();
    store.create_task(alice(), 2_000_000, text("one")).unwrap();
    store.create_task(bob(), 2_000_000, text("other")).unwrap();
    store.create_task(alice(), 2_000_000, text("two")).unwrap();
    store.create_task(alice(), 2_000_000, text("three")).unwrap();
    let all = store.view_all();
    assert_eq!(all.len(), 2);
    assert_eq!(all[0].0, alice());
    assert_eq!(all[1].0, bob());
    let descriptions: Vec<&str> =
        all[0].1.all_task.iter().map(|task| task.description.as_str()).collect();
    assert_eq!(descriptions, vec!["one", "two", "three"]);
    assert!(all[0].1.all_task.iter().all(|task| task.id == alice()));
    assert_eq!(all[1].1.all_task.len(), 1);
}

#[test]
fn accounts_and_contracts_are_different_identities() {
    let mut store = TaskStore::new();
    let account_seven = Address::Account(AccountAddress([7u8; 32]));
    store.create_task(contract(), 2_000_000, text("by contract")).unwrap();
    store.create_task(account_seven, 2_000_000, text("by account")).unwrap();
    store.create_task(Address::Contract(ContractAddress::new(7, 1)), 2_000_000, text("sub")).unwrap();
    store.create_task(Address::Contract(ContractAddress::new(7, 0)), 2_000_000, text("again")).unwrap();
    let all = store.view_all();
    assert_eq!(all.len(), 3);
    assert_eq!(all[0].0, contract());
    assert_eq!(all[0].1.all_task.len(), 2);
    assert_eq!(all[1].0, account_seven);
    assert_eq!(all[2].0, Address::Contract(ContractAddress::new(7, 1)));
}

#[test]
fn a_sub_task_without_an_entry_changes_nothing() {
    let mut store = TaskStore::new();
    store.create_sub_task(alice(), text("lost"));
    assert_eq!(store.view_all(), vec![]);
    store.create_task(bob(), 2_000_000, text("bob's")).unwrap();
    let before = store.view_all();
    store.create_sub_task(alice(), text("lost again"));
    assert_eq!(store.view_all(), before);
}

#[test]
fn a_sub_task_without_a_main_task_changes_nothing() {
    let mut store = TaskStore::new();
    store.put_user(alice(), User::new());
    let before = store.view_all();
    assert_eq!(before, vec![(alice(), User { all_task: vec![] })]);
    store.create_sub_task(alice(), text("nowhere to go"));
    assert_eq!(store.view_all(), before);
}

#[test]
fn sub_tasks_are_numbered_by_their_count() {
    let mut store = TaskStore::new();
    store.create_task(alice(), 2_000_000, text("first")).unwrap();
    store.create_sub_task(alice(), text("a"));
    store.create_sub_task(alice(), text("b"));
    store.create_sub_task(alice(), text("c"));
    store.create_task(alice(), 2_000_000, text("second")).unwrap();
    store.create_sub_task(alice(), text("d"));
    let user = store.get_user_todo(alice()).0.unwrap();
    assert_eq!(
        user.all_task[0].tasks,
        vec![
            SubTask { id: 0, description: text("a"), completed: false },
            SubTask { id: 1, description: text("b"), completed: false },
            SubTask { id: 2, description: text("c"), completed: false },
        ]
    );
    assert_eq!(
        user.all_task[1].tasks,
        vec![SubTask { id: 0, description: text("d"), completed: false }]
    );
}

#[test]
fn sub_tasks_touch_only_the_callers_last_task() {
    let mut store = TaskStore::new();
    store.create_task(alice(), 2_000_000, text("alice 1")).unwrap();
    store.create_task(bob(), 2_000_000, text("bob 1")).unwrap();
    store.create_task(alice(), 2_000_000, text("alice 2")).unwrap();
    let bob_before = store.get_user_todo(bob());
    store.create_sub_task(alice(), text("x"));
    let user = store.get_user_todo(alice()).0.unwrap();
    assert_eq!(user.all_task[0].tasks, vec![]);
    assert_eq!(user.all_task[1].tasks.len(), 1);
    assert_eq!(store.get_user_todo(bob()), bob_before);
}

#[test]
fn marking_sets_one_flag_and_nothing_else() {
    let mut store = TaskStore::new();
    store.create_task(alice(), 2_000_000, text("t0")).unwrap();
    store.create_sub_task(alice(), text("t0s0"));
    store.create_sub_task(alice(), text("t0s1"));
    store.create_task(alice(), 2_000_000, text("t1")).unwrap();
    store.create_sub_task(alice(), text("t1s0"));
    store.create_sub_task(alice(), text("t1s1"));
    store.create_task(bob(), 2_000_000, text("b0")).unwrap();
    store.create_sub_task(bob(), text("b0s0"));
    let mut expected = store.view_all();
    assert_eq!(store.mark_as_completed(alice(), 1, 0), Ok(()));
    expected[0].1.all_task[1].tasks[0].completed = true;
    assert_eq!(store.view_all(), expected);
    assert_eq!(store.mark_as_completed(alice(), 0, 1), Ok(()));
    expected[0].1.all_task[0].tasks[1].completed = true;
    assert_eq!(store.view_all(), expected);
}

#[test]
fn marking_twice_keeps_the_flag() {
    let mut store = TaskStore::new();
    store.create_task(alice(), 2_000_000, text("t")).unwrap();
    store.create_sub_task(alice(), text("s"));
    assert_eq!(store.mark_as_completed(alice(), 0, 0), Ok(()));
    let once = store.view_all();
    assert_eq!(store.mark_as_completed(alice(), 0, 0), Ok(()));
    assert_eq!(store.view_all(), once);
    assert!(once[0].1.all_task[0].tasks[0].completed);
}

#[test]
fn a_missing_sub_task_is_an_error() {
    let mut store = TaskStore::new();
    store.create_task(alice(), 2_000_000, text("t")).unwrap();
    store.create_sub_task(alice(), text("s"));
    let before = store.view_all();
    assert_eq!(store.mark_as_completed(alice(), 0, 1), Err(ReceiveError::IndexOutOfRange));
    assert_eq!(store.mark_as_completed(alice(), 0, u64::MAX), Err(ReceiveError::IndexOutOfRange));
    assert_eq!(store.view_all(), before);
    store.create_task(alice(), 2_000_000, text("empty")).unwrap();
    let before = store.view_all();
    assert_eq!(store.mark_as_completed(alice(), 1, 0), Err(ReceiveError::IndexOutOfRange));
    assert_eq!(store.view_all(), before);
}

#[test]
fn a_missing_main_task_is_passed_over() {
    let mut store = TaskStore::new();
    assert_eq!(store.mark_as_completed(alice(), 0, 0), Ok(()));
    assert_eq!(store.view_all(), vec![]);
    store.create_task(alice(), 2_000_000, text("t")).unwrap();
    store.create_sub_task(alice(), text("s"));
    let before = store.view_all();
    assert_eq!(store.mark_as_completed(alice(), 1, 0), Ok(()));
    assert_eq!(store.mark_as_completed(alice(), u64::MAX, 0), Ok(()));
    assert_eq!(store.mark_as_completed(bob(), 0, 0), Ok(()));
    assert_eq!(store.view_all(), before);
}

#[test]
fn viewing_twice_gives_the_same() {
    let mut store = TaskStore::new();
    store.create_task(alice(), 2_000_000, text("t")).unwrap();
    store.create_sub_task(alice(), text("s"));
    store.create_task(bob(), 2_000_000, text("u")).unwrap();
    let first = store.view_all();
    let second = store.view_all();
    assert_eq!(first, second);
    assert_eq!(store.get_user_todo(bob()), store.get_user_todo(bob()));
}

#[test]
fn a_run_of_requests_only_appends() {
    let mut store = TaskStore::new();
    store.create_task(alice(), 2_000_000, text("a0")).unwrap();
    store.create_sub_task(alice(), text("a0s0"));
    store.mark_as_completed(alice(), 0, 0).unwrap();
    let before = store.view_all();
    store.create_task(bob(), 2_000_000, text("b0")).unwrap();
    store.create_sub_task(alice(), text("a0s1"));
    store.create_task(alice(), 2_000_000, text("a1")).unwrap();
    let _ = store.create_task(alice(), 1, text("refused"));
    let _ = store.mark_as_completed(alice(), 0, 9);
    store.mark_as_completed(alice(), 0, 1).unwrap();
    let after = store.view_all();
    assert_eq!(after.len(), 2);
    assert_eq!(after[0].0, before[0].0);
    let (old_user, new_user) = (&before[0].1, &after[0].1);
    assert_eq!(new_user.all_task.len(), 2);
    assert_eq!(new_user.all_task[0].description, old_user.all_task[0].description);
    assert_eq!(new_user.all_task[0].tasks[0], old_user.all_task[0].tasks[0]);
    assert_eq!(
        new_user.all_task[0].tasks[1],
        SubTask { id: 1, description: text("a0s1"), completed: true }
    );
    assert_eq!(new_user.all_task[1].description, "a1");
}

#[test]
fn get_user_todo_returns_the_callers_identity() {
    let mut store = TaskStore::new();
    store.create_task(alice(), 2_000_000, text("t")).unwrap();
    let (found, who) = store.get_user_todo(contract());
    assert_eq!(found, None);
    assert_eq!(who, contract());
    let (found, who) = store.get_user_todo(alice());
    assert_eq!(who, alice());
    assert_eq!(found.unwrap().all_task.len(), 1);
}

#[test]
fn put_user_replaces_or_adds() {
    let mut store = TaskStore::new();
    store.create_task(alice(), 2_000_000, text("t")).unwrap();
    store.create_task(bob(), 2_000_000, text("u")).unwrap();
    let mut user = User::new();
    user.push_task(alice(), text("restored"));
    store.put_user(alice(), user.clone());
    store.put_user(contract(), user.clone());
    let all = store.view_all();
    assert_eq!(all.len(), 3);
    assert_eq!(all[0], (alice(), user.clone()));
    assert_eq!(all[1].0, bob());
    assert_eq!(all[2], (contract(), user));
}

#[test]
fn strict_sub_task_reports_what_is_missing() {
    let mut store = TaskStore::new();
    assert_eq!(
        store.create_sub_task_strict(alice(), text("s")),
        Err(ReceiveError::User(text("User not found")))
    );
    store.put_user(alice(), User::new());
    assert_eq!(
        store.create_sub_task_strict(alice(), text("s")),
        Err(ReceiveError::User(text("No main tasks available to add a sub-task")))
    );
    assert_eq!(store.view_all(), vec![(alice(), User { all_task: vec![] })]);
    store.create_task(alice(), 2_000_000, text("t")).unwrap();
    assert_eq!(store.create_sub_task_strict(alice(), text("s")), Ok(()));
    assert_eq!(
        store.get_user_todo(alice()).0.unwrap().all_task[0].tasks,
        vec![SubTask { id: 0, description: text("s"), completed: false }]
    );
}

#[test]
fn strict_marking_reports_what_is_missing() {
    let mut store = TaskStore::new();
    assert_eq!(
        store.mark_as_completed_strict(alice(), 0, 0),
        Err(ReceiveError::User(text("User not found")))
    );
    store.create_task(alice(), 2_000_000, text("t")).unwrap();
    store.create_sub_task(alice(), text("s"));
    let before = store.view_all();
    assert_eq!(
        store.mark_as_completed_strict(alice(), 1, 0),
        Err(ReceiveError::User(text("Task not found")))
    );
    assert_eq!(
        store.mark_as_completed_strict(alice(), 0, 1),
        Err(ReceiveError::IndexOutOfRange)
    );
    assert_eq!(store.view_all(), before);
    assert_eq!(store.mark_as_completed_strict(alice(), 0, 0), Ok(()));
    assert!(store.get_user_todo(alice()).0.unwrap().all_task[0].tasks[0].completed);
}
