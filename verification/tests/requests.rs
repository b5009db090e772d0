use rpc_plugin::{
    free_account, free_err_msg, get_account, get_latest_blockhash, get_multiple_account, load_fn,
    panic_to_string, AccountAsk, AccountCResult, AccountCall, AccountEvent, AccountSharedData,
    AccountStep, Block, BlockhashAsk, BlockhashEvent, BlockhashStep, Callback, CommitmentLevel,
    ErrorReport, Heap, MultipleAsk, MultipleCall, MultipleEvent, MultipleStep, PanicPayload,
    Pointer, Pubkey, PubkeyArray, PubkeyRepr, RpcContextConfig, TaskResult,
};

fn live(heap: &Heap) -> usize {
    format!("{:?}", heap).matches("Some(").count()
}

fn message(heap: &Heap, p: Pointer) -> String {
    match p {
        Pointer::To(a) => match heap.get(a) {
            Block::CStr(v) => {
                assert_eq!(v.last(), Some(&0));
                String::from_utf8(v[..v.len() - 1].to_vec()).unwrap()
            }
            other => panic!("not a C string: {:?}", other),
        },
        _ => panic!("nothing behind {:?}", p),
    }
}

fn literal(text: &'static str) -> PanicPayload {
    PanicPayload { as_str: Some(text), as_string: None }
}

fn formatted(text: &str) -> PanicPayload {
    PanicPayload { as_str: None, as_string: Some(text.to_string()) }
}

fn opaque() -> PanicPayload {
    PanicPayload { as_str: None, as_string: None }
}

fn report() -> ErrorReport {
    ErrorReport { display: "shown".to_string(), debug: "debugged".to_string() }
}

fn account(lamports: u64, data: Vec<u8>) -> AccountSharedData {
    AccountSharedData {
        lamports,
        data,
        owner: Pubkey { bytes: [8; 32] },
        executable: false,
        rent_epoch: 1,
    }
}

fn processed() -> RpcContextConfig {
    RpcContextConfig { commitment: Some(CommitmentLevel::Processed), min_context_slot: Some(0) }
}

fn call(ask: AccountAsk) -> AccountCall {
    AccountCall { pk: Pubkey { bytes: [7; 32] }, ask }
}

fn account_failure(ask: AccountAsk, event: AccountEvent) -> String {
    let mut heap = Heap::new();
    match get_account(&mut heap, call(ask), event) {
        AccountStep::Done(AccountCResult { account, error_msg }) => {
            assert!(account.is_null());
            let text = message(&heap, error_msg);
            free_err_msg(&mut heap, error_msg);
            assert_eq!(live(&heap), 0);
            text
        }
        other => panic!("{:?}", other),
    }
}

#[test]
fn account_request_runs_to_its_reply() {
    let mut heap = Heap::new();
    let pk = Pubkey { bytes: [7; 32] };
    let first = AccountCall::begin(pk);
    assert_eq!(first, AccountCall { pk, ask: AccountAsk::Processor });
    let event = AccountEvent::Processor { initialized: true };
    let second = get_account(&mut heap, first, event);
    let bank = AccountCall { pk, ask: AccountAsk::Bank(processed()) };
    assert_eq!(second, AccountStep::Ask(bank));
    let third = get_account(&mut heap, bank, AccountEvent::Bank(Ok(())));
    let lookup = AccountCall { pk, ask: AccountAsk::Lookup };
    assert_eq!(third, AccountStep::Ask(lookup));
    assert_eq!(live(&heap), 0);
    let event = AccountEvent::Account(Some(account(12, vec![3, 4])));
    match get_account(&mut heap, lookup, event) {
        AccountStep::Done(r) => {
            assert!(r.error_msg.is_null());
            match r.account {
                Pointer::To(a) => match heap.get(a) {
                    Block::Account(c) => assert_eq!((c.lamports, c.data_len), (12, 2)),
                    other => panic!("{:?}", other),
                },
                p => panic!("{:?}", p),
            }
            free_account(&mut heap, r.account);
            free_err_msg(&mut heap, r.error_msg);
            assert_eq!(live(&heap), 0);
        }
        other => panic!("{:?}", other),
    }
}

#[test]
fn account_request_without_service_fails() {
    let event = AccountEvent::Processor { initialized: false };
    assert_eq!(account_failure(AccountAsk::Processor, event), "get_account JRP not initialized");
}

#[test]
fn account_request_without_bank_shows_the_error() {
    let event = AccountEvent::Bank(Err(report()));
    let text = account_failure(AccountAsk::Bank(processed()), event);
    assert_eq!(text, "get_account get_bank failed: shown");
}

#[test]
fn account_request_without_account_fails() {
    let event = AccountEvent::Account(None);
    assert_eq!(account_failure(AccountAsk::Lookup, event), "get_account bank.get_account");
}

#[test]
fn account_request_that_panics_gives_the_message() {
    let event = AccountEvent::Panicked(literal("boom"));
    assert_eq!(account_failure(AccountAsk::Lookup, event), "boom");
    let event = AccountEvent::Panicked(opaque());
    assert_eq!(account_failure(AccountAsk::Processor, event), "Unknown panic occurred");
}

#[test]
fn panic_messages() {
    assert_eq!(panic_to_string(literal("a")), "a");
    assert_eq!(panic_to_string(formatted("b")), "b");
    assert_eq!(panic_to_string(opaque()), "Unknown panic occurred");
    let both = PanicPayload { as_str: Some("a"), as_string: Some("b".to_string()) };
    assert_eq!(panic_to_string(both), "a");
}

fn multiple_failure(heap: &mut Heap, step: MultipleStep) -> String {
    match step {
        MultipleStep::Done(r) => {
            assert!(r.ptr.is_null());
            assert_eq!(r.len, 0);
            let text = message(heap, r.error_msg);
            free_err_msg(heap, r.error_msg);
            assert_eq!(live(heap), 0);
            text
        }
        other => panic!("{:?}", other),
    }
}

fn multiple(ask: MultipleAsk) -> MultipleCall {
    MultipleCall { pks: (1..5).map(|i| Pubkey { bytes: [i; 32] }).collect(), ask }
}

#[test]
fn several_accounts_without_addresses_fail() {
    let mut heap = Heap::new();
    let step = MultipleCall::begin(&mut heap, PubkeyArray { ptr: Pointer::Null, len: 9 });
    assert_eq!(multiple_failure(&mut heap, step), "pks len = 0");
    let step = MultipleCall::begin(&mut heap, PubkeyArray { ptr: Pointer::Dangling, len: 0 });
    assert_eq!(multiple_failure(&mut heap, step), "pks len = 0");
}

#[test]
fn several_accounts_failures() {
    let mut heap = Heap::new();
    let event = MultipleEvent::Processor { initialized: false };
    let step = get_multiple_account(&mut heap, multiple(MultipleAsk::Processor), event);
    let text = multiple_failure(&mut heap, step);
    assert_eq!(text, "get_multiple_account JRP not initialized");
    let event = MultipleEvent::Bank(Err(report()));
    let step = get_multiple_account(&mut heap, multiple(MultipleAsk::Bank(processed())), event);
    let text = multiple_failure(&mut heap, step);
    assert_eq!(text, "get_multiple_account get_bank failed: shown");
    let event = MultipleEvent::Panicked(formatted("late"));
    let step = get_multiple_account(&mut heap, multiple(MultipleAsk::Lookup), event);
    assert_eq!(multiple_failure(&mut heap, step), "late");
}

#[test]
fn several_accounts_run_to_their_reply() {
    let mut heap = Heap::new();
    let keys = (1..5).map(|i| PubkeyRepr { bytes: [i; 32] }).collect();
    let ptr = heap.place(Block::Pubkeys(keys));
    let step = MultipleCall::begin(&mut heap, PubkeyArray { ptr, len: 4 });
    assert_eq!(live(&heap), 0);
    assert_eq!(step, MultipleStep::Ask(multiple(MultipleAsk::Processor)));
    let event = MultipleEvent::Processor { initialized: true };
    let step = get_multiple_account(&mut heap, multiple(MultipleAsk::Processor), event);
    assert_eq!(step, MultipleStep::Ask(multiple(MultipleAsk::Bank(processed()))));
    let event = MultipleEvent::Bank(Ok(()));
    let step = get_multiple_account(&mut heap, multiple(MultipleAsk::Bank(processed())), event);
    assert_eq!(step, MultipleStep::Ask(multiple(MultipleAsk::Lookup)));
    let results = vec![
        TaskResult::Completed(Some(account(1, vec![1]))),
        TaskResult::Completed(None),
        TaskResult::Failed,
        TaskResult::Completed(Some(account(2, vec![]))),
    ];
    let event = MultipleEvent::Accounts(results);
    let r = match get_multiple_account(&mut heap, multiple(MultipleAsk::Lookup), event) {
        MultipleStep::Done(r) => r,
        other => panic!("{:?}", other),
    };
    assert_eq!(r.len, 4);
    assert!(r.error_msg.is_null());
    assert_eq!(live(&heap), 4);
    let entries = match r.ptr {
        Pointer::To(a) => match heap.take(a) {
            Block::Accounts(v) => v,
            other => panic!("{:?}", other),
        },
        p => panic!("{:?}", p),
    };
    let empty: Vec<bool> = entries.iter().map(|p| p.is_null()).collect();
    assert_eq!(empty, vec![false, true, true, false]);
    for p in entries {
        free_account(&mut heap, p);
    }
    assert_eq!(live(&heap), 0);
}

#[test]
fn several_lookups_that_find_nothing_are_an_array() {
    let mut heap = Heap::new();
    let pks = vec![Pubkey { bytes: [7; 32] }];
    let event = MultipleEvent::Accounts(vec![TaskResult::Failed]);
    let call = MultipleCall { pks, ask: MultipleAsk::Lookup };
    match get_multiple_account(&mut heap, call, event) {
        MultipleStep::Done(r) => {
            assert!(!r.ptr.is_null() && r.error_msg.is_null());
            assert_eq!(r.len, 1);
            assert_eq!(live(&heap), 1);
        }
        other => panic!("{:?}", other),
    }
}

#[test]
fn blockhash_request_runs_to_its_reply() {
    let confirmed = RpcContextConfig {
        commitment: Some(CommitmentLevel::Confirmed),
        min_context_slot: Some(0),
    };
    let first = BlockhashAsk::begin();
    assert_eq!(first, BlockhashAsk::Processor);
    let step = get_latest_blockhash(first, BlockhashEvent::Processor { initialized: true });
    assert_eq!(step, BlockhashStep::Ask(BlockhashAsk::Bank(confirmed)));
    let step = get_latest_blockhash(BlockhashAsk::Bank(confirmed), BlockhashEvent::Bank(Ok(())));
    assert_eq!(step, BlockhashStep::Ask(BlockhashAsk::LastBlockhash));
    let event = BlockhashEvent::LastBlockhash([6; 32]);
    let step = get_latest_blockhash(BlockhashAsk::LastBlockhash, event);
    assert_eq!(step, BlockhashStep::Done([6; 32]));
}

#[test]
fn blockhash_request_that_fails_gives_zeros() {
    let zeros = BlockhashStep::Done([0; 32]);
    let event = BlockhashEvent::Processor { initialized: false };
    assert_eq!(get_latest_blockhash(BlockhashAsk::Processor, event), zeros);
    let event = BlockhashEvent::Bank(Err(report()));
    assert_eq!(get_latest_blockhash(BlockhashAsk::Bank(processed()), event), zeros);
    let event = BlockhashEvent::Panicked;
    assert_eq!(get_latest_blockhash(BlockhashAsk::LastBlockhash, event), zeros);
}

#[test]
fn callbacks_are_registered_in_order() {
    let expected = vec![
        ("register_get_account", Callback::GetAccount),
        ("register_get_multiple_account", Callback::GetMultipleAccount),
        ("register_simulate_transaction", Callback::SimulateTransaction),
        ("register_get_latest_blockhash", Callback::GetLatestBlockhash),
        ("register_free_account", Callback::FreeAccount),
        ("register_free_err_msg", Callback::FreeErrMsg),
        ("register_simulate_transaction_v2", Callback::SimulateTransactionV2),
    ];
    assert_eq!(load_fn(), expected);
}
