use rpc_plugin::{
    allocation_to_leaked_bytes, encode_simulate_res, free_account, free_leaked_bytes,
    simulate_transaction, simulate_transaction_v2, string_to_leaked_bytes, vecu8_to_leaked_bytes,
    AccountC, AccountSharedData, Block, CommitmentLevel, CompiledInstruction, ErrorReport, Heap,
    InnerInstruction, MessageAddressTableLookup, MessageHeader, Pointer, Pubkey, RpcContextConfig,
    SimulateAsk, SimulateCall, SimulateEvent, SimulateRes, SimulateStep, SimulateStepV2,
    TransactionBinaryEncoding, TransactionSimulationResult, VersionedMessage, VersionedTransaction,
};
use serde::ser::{Serialize, SerializeStruct, Serializer};

fn live(heap: &Heap) -> usize {
    format!("{:?}", heap).matches("Some(").count()
}

fn bytes(heap: &Heap, p: Pointer) -> Vec<u8> {
    match p {
        Pointer::To(a) => match heap.get(a) {
            Block::Bytes(v) => v.clone(),
            other => panic!("not a buffer: {:?}", other),
        },
        _ => panic!("nothing behind {:?}", p),
    }
}

fn report() -> ErrorReport {
    ErrorReport { display: "shown".to_string(), debug: "debugged".to_string() }
}

fn processed() -> RpcContextConfig {
    RpcContextConfig { commitment: Some(CommitmentLevel::Processed), min_context_slot: Some(0) }
}

fn call(need_account: bool, need_inner_ix: bool, ask: SimulateAsk) -> SimulateCall {
    SimulateCall { need_account, need_inner_ix, ask }
}

fn decode(text: &str) -> SimulateAsk {
    SimulateAsk::Decode {
        encoded: text.to_string(),
        encoding: TransactionBinaryEncoding::Base64,
    }
}

/// A transaction that was submitted with the given blockhash.
fn transaction(recent_blockhash: [u8; 32]) -> VersionedTransaction {
    VersionedTransaction {
        signatures: vec![[9; 64]],
        message: VersionedMessage {
            header: MessageHeader {
                num_required_signatures: 1,
                num_readonly_signed_accounts: 0,
                num_readonly_unsigned_accounts: 1,
            },
            account_keys: vec![Pubkey { bytes: [1; 32] }, Pubkey { bytes: [2; 32] }],
            recent_blockhash,
            instructions: vec![CompiledInstruction {
                program_id_index: 1,
                accounts: vec![0],
                data: vec![8, 8],
            }],
            address_table_lookups: Some(vec![MessageAddressTableLookup {
                account_key: Pubkey { bytes: [3; 32] },
                writable_indexes: vec![4],
                readonly_indexes: vec![],
            }]),
        },
    }
}

fn processor() -> SimulateAsk {
    SimulateAsk::Processor { transaction: transaction([1; 32]) }
}

fn bank() -> SimulateAsk {
    SimulateAsk::Bank { config: processed(), transaction: transaction([1; 32]) }
}

fn last_blockhash() -> SimulateAsk {
    SimulateAsk::LastBlockhash { transaction: transaction([1; 32]) }
}

fn sanitize(recent_blockhash: [u8; 32]) -> SimulateAsk {
    SimulateAsk::Sanitize { transaction: transaction(recent_blockhash) }
}

fn outcome(result: Result<(), String>) -> TransactionSimulationResult {
    TransactionSimulationResult {
        result,
        logs: vec!["log one".to_string(), "log two".to_string()],
        post_simulation_accounts: vec![(
            Pubkey { bytes: [3; 32] },
            AccountSharedData {
                lamports: 10,
                data: vec![1, 2, 3],
                owner: Pubkey { bytes: [4; 32] },
                executable: true,
                rent_epoch: 20,
            },
        )],
        units_consumed: 450,
        inner_instructions: Some(vec![vec![InnerInstruction {
            program_id_index: 1,
            accounts: vec![0, 2],
            data: vec![5],
            stack_height: 2,
        }]]),
    }
}

fn failure(step: SimulateStep, heap: &mut Heap) -> String {
    match step {
        SimulateStep::Done(r) => {
            let text = String::from_utf8(bytes(heap, r.error_ptr)).unwrap();
            assert_eq!(r.error_len, text.len());
            assert!(r.logs.ptr.is_null() && r.post_accounts.ptr.is_null());
            assert_eq!((r.logs.len, r.units_consumed, r.post_accounts.len), (0, 0, 0));
            free_leaked_bytes(heap, r.error_ptr, r.error_len);
            text
        }
        other => panic!("{:?}", other),
    }
}

fn failure_v2(step: SimulateStepV2, heap: &mut Heap) -> String {
    match step {
        SimulateStepV2::Done(r) => {
            let text = String::from_utf8(bytes(heap, r.error_ptr)).unwrap();
            assert_eq!(r.error_len, text.len());
            assert!(r.data_ptr.is_null());
            assert_eq!(r.data_len, 0);
            free_leaked_bytes(heap, r.error_ptr, r.error_len);
            text
        }
        other => panic!("{:?}", other),
    }
}

#[test]
fn request_without_data_fails() {
    let mut heap = Heap::new();
    let step = SimulateCall::begin(&mut heap, Pointer::Null, 5, true);
    assert_eq!(failure(step, &mut heap), "simulate_transaction: data is null or empty");
    let step = SimulateCall::begin(&mut heap, Pointer::Dangling, 0, true);
    assert_eq!(failure(step, &mut heap), "simulate_transaction: data is null or empty");
    let step = SimulateCall::begin_v2(&mut heap, Pointer::Null, 5, true, true);
    assert_eq!(failure_v2(step, &mut heap), "simulate_transaction_v2: data is null or empty");
    assert_eq!(live(&heap), 0);
}

#[test]
fn request_that_is_not_utf8_fails() {
    let mut heap = Heap::new();
    let (data, len) = vecu8_to_leaked_bytes(&mut heap, vec![0x41, 0xff]);
    let step = SimulateCall::begin(&mut heap, data, len, true);
    assert_eq!(failure(step, &mut heap), "simulate_transaction: invalid UTF-8 in data");
    let step = SimulateCall::begin_v2(&mut heap, data, len, true, false);
    assert_eq!(failure_v2(step, &mut heap), "simulate_transaction_v2: invalid UTF-8 in data");
    // The input stays with the caller.
    assert_eq!(bytes(&heap, data), vec![0x41, 0xff]);
    assert_eq!(live(&heap), 1);
}

#[test]
fn request_reads_its_text_back() {
    let mut heap = Heap::new();
    let (data, len) = string_to_leaked_bytes(&mut heap, "AQ\u{e9}=".to_string());
    let step = SimulateCall::begin(&mut heap, data, len, true);
    assert_eq!(step, SimulateStep::Ask(call(true, false, decode("AQ\u{e9}="))));
    let step = SimulateCall::begin_v2(&mut heap, data, 2, false, true);
    assert_eq!(step, SimulateStepV2::Ask(call(false, true, decode("AQ"))));
    assert_eq!(live(&heap), 1);
}

#[test]
fn request_asks_in_order() {
    let mut heap = Heap::new();
    let steps = vec![
        (decode("AA=="), SimulateEvent::Decoded(Ok(transaction([1; 32]))), processor()),
        (
            processor(),
            SimulateEvent::Processor { initialized: true },
            bank(),
        ),
        (
            bank(),
            SimulateEvent::Bank(Ok(())),
            last_blockhash(),
        ),
        (
            last_blockhash(),
            SimulateEvent::LastBlockhash([5; 32]),
            sanitize([5; 32]),
        ),
        (
            sanitize([5; 32]),
            SimulateEvent::Sanitized(Ok(())),
            SimulateAsk::Simulate { inner_instructions: false },
        ),
    ];
    for (ask, event, next) in steps {
        let step = simulate_transaction(&mut heap, call(true, false, ask), event);
        assert_eq!(step, SimulateStep::Ask(call(true, false, next)));
    }
    let event = SimulateEvent::Sanitized(Ok(()));
    let ask = sanitize([5; 32]);
    let step = simulate_transaction_v2(&mut heap, call(false, true, ask), event);
    let next = SimulateAsk::Simulate { inner_instructions: true };
    assert_eq!(step, SimulateStepV2::Ask(call(false, true, next)));
    assert_eq!(live(&heap), 0);
}

#[test]
fn submitted_blockhash_is_ignored() {
    let mut heap = Heap::new();
    for submitted in [[1; 32], [2; 32]] {
        let ask = SimulateAsk::LastBlockhash { transaction: transaction(submitted) };
        let event = SimulateEvent::LastBlockhash([6; 32]);
        let step = simulate_transaction(&mut heap, call(true, false, ask), event);
        assert_eq!(step, SimulateStep::Ask(call(true, false, sanitize([6; 32]))));
        let ask = SimulateAsk::LastBlockhash { transaction: transaction(submitted) };
        let event = SimulateEvent::LastBlockhash([6; 32]);
        let step = simulate_transaction_v2(&mut heap, call(true, true, ask), event);
        assert_eq!(step, SimulateStepV2::Ask(call(true, true, sanitize([6; 32]))));
    }
}

#[test]
fn blockhash_is_put_in() {
    let mut message = transaction([1; 32]).message;
    message.set_recent_blockhash([2; 32]);
    assert_eq!(message, transaction([2; 32]).message);
}

#[test]
fn request_reads_from_a_longer_allocation() {
    let mut heap = Heap::new();
    let (data, len) = allocation_to_leaked_bytes(&mut heap, b"AQ==".to_vec(), 9);
    let step = SimulateCall::begin(&mut heap, data, len, true);
    assert_eq!(step, SimulateStep::Ask(call(true, false, decode("AQ=="))));
}

#[test]
fn request_failures() {
    let mut heap = Heap::new();
    let cases = vec![
        (
            decode("AA=="),
            SimulateEvent::Decoded(Err(report())),
            "decode_and_deserialize error: debugged",
        ),
        (
            processor(),
            SimulateEvent::Processor { initialized: false },
            "simulate_transaction JRP not initialized",
        ),
        (
            bank(),
            SimulateEvent::Bank(Err(report())),
            "simulate_transaction jrp.get_bank_with_config: debugged",
        ),
        (
            sanitize([0; 32]),
            SimulateEvent::Sanitized(Err(report())),
            "sanitize_transaction error: debugged",
        ),
        (
            last_blockhash(),
            SimulateEvent::Panicked,
            "simulate_transaction panic: Any { .. }",
        ),
    ];
    for (ask, event, text) in cases {
        let step = simulate_transaction(&mut heap, call(true, false, ask), event);
        assert_eq!(failure(step, &mut heap), text);
        assert_eq!(live(&heap), 0);
    }
}

#[test]
fn request_failures_v2() {
    let mut heap = Heap::new();
    let cases = vec![
        (
            decode("AA=="),
            SimulateEvent::Decoded(Err(report())),
            "simulate_transaction_v2 decode_and_deserialize error: debugged",
        ),
        (
            processor(),
            SimulateEvent::Processor { initialized: false },
            "simulate_transaction_v2 JRP not initialized",
        ),
        (
            bank(),
            SimulateEvent::Bank(Err(report())),
            "simulate_transaction_v2 jrp.get_bank_with_config: debugged",
        ),
        (
            sanitize([0; 32]),
            SimulateEvent::Sanitized(Err(report())),
            "simulate_transaction_v2 error: debugged",
        ),
        (
            SimulateAsk::Simulate { inner_instructions: true },
            SimulateEvent::Panicked,
            "simulate_transaction_v2 panic: Any { .. }",
        ),
    ];
    for (ask, event, text) in cases {
        let step = simulate_transaction_v2(&mut heap, call(true, true, ask), event);
        assert_eq!(failure_v2(step, &mut heap), text);
        assert_eq!(live(&heap), 0);
    }
}

fn simulate_ask() -> SimulateAsk {
    SimulateAsk::Simulate { inner_instructions: false }
}

#[test]
fn simulation_reply_holds_everything_once() {
    let mut heap = Heap::new();
    let event = SimulateEvent::Simulated(outcome(Err("custom error".to_string())));
    let r = match simulate_transaction(&mut heap, call(true, false, simulate_ask()), event) {
        SimulateStep::Done(r) => r,
        other => panic!("{:?}", other),
    };
    assert_eq!(bytes(&heap, r.error_ptr), b"custom error".to_vec());
    assert_eq!(r.error_len, 12);
    assert_eq!(r.units_consumed, 450);
    assert_eq!((r.logs.len, r.post_accounts.len), (2, 1));
    // The error, two lines with their array, one account with its data and its array.
    assert_eq!(live(&heap), 7);
    free_leaked_bytes(&mut heap, r.error_ptr, r.error_len);
    let lines = match r.logs.ptr {
        Pointer::To(a) => match heap.take(a) {
            Block::Logs(v) => v,
            other => panic!("{:?}", other),
        },
        p => panic!("{:?}", p),
    };
    assert_eq!(bytes(&heap, lines[0].ptr), b"log one".to_vec());
    assert_eq!(bytes(&heap, lines[1].ptr), b"log two".to_vec());
    for line in lines {
        free_leaked_bytes(&mut heap, line.ptr, line.len);
    }
    let posts = match r.post_accounts.ptr {
        Pointer::To(a) => match heap.take(a) {
            Block::PostAccounts(v) => v,
            other => panic!("{:?}", other),
        },
        p => panic!("{:?}", p),
    };
    assert_eq!(posts[0].pubkey, [3; 32]);
    match posts[0].account {
        Pointer::To(a) => match heap.get(a) {
            Block::Account(c) => {
                assert_eq!((c.lamports, c.owner, c.executable), (10, [4; 32], 1));
                assert_eq!((c.rent_epoch, c.data_len), (20, 3));
                assert_eq!(bytes(&heap, c.data_ptr), vec![1, 2, 3]);
            }
            other => panic!("{:?}", other),
        },
        p => panic!("{:?}", p),
    }
    free_account(&mut heap, posts[0].account);
    assert_eq!(live(&heap), 0);
}

#[test]
fn simulation_reply_without_accounts() {
    let mut heap = Heap::new();
    let event = SimulateEvent::Simulated(outcome(Ok(())));
    match simulate_transaction(&mut heap, call(false, false, simulate_ask()), event) {
        SimulateStep::Done(r) => {
            assert!(r.error_ptr.is_null());
            assert_eq!(r.error_len, 0);
            assert!(r.post_accounts.ptr.is_null());
            assert_eq!(r.post_accounts.len, 0);
            assert_eq!(live(&heap), 3);
        }
        other => panic!("{:?}", other),
    }
}

#[test]
fn simulation_reply_with_an_empty_list() {
    let mut heap = Heap::new();
    let mut res = outcome(Ok(()));
    res.post_simulation_accounts = vec![];
    res.logs = vec![];
    let event = SimulateEvent::Simulated(res);
    match simulate_transaction(&mut heap, call(true, false, simulate_ask()), event) {
        SimulateStep::Done(r) => {
            assert_eq!((r.post_accounts.ptr, r.post_accounts.len), (Pointer::Dangling, 0));
            assert_eq!((r.logs.ptr, r.logs.len), (Pointer::Null, 0));
            assert_eq!(live(&heap), 0);
        }
        other => panic!("{:?}", other),
    }
}

fn le(n: u64) -> Vec<u8> {
    n.to_le_bytes().to_vec()
}

fn expected_outcome_bytes(accounts: bool) -> Vec<u8> {
    let mut b = le(2);
    for line in [&b"log one"[..], &b"log two"[..]] {
        b.extend(le(7));
        b.extend(line);
    }
    b.extend(le(450));
    if accounts {
        b.push(1);
        b.extend(le(1));
        b.extend([3; 32]);
        b.extend(le(3));
        b.extend([1, 2, 3]);
        b.extend([4; 32]);
        b.extend(le(10));
        b.push(1);
        b.extend(le(20));
    } else {
        b.push(0);
    }
    b.push(1);
    b.extend(le(1));
    b.extend(le(1));
    b.extend([1, 2, 0, 2, 1, 5, 2]);
    b
}

#[test]
fn encoded_reply_holds_error_and_data() {
    let mut heap = Heap::new();
    let event = SimulateEvent::Simulated(outcome(Err("no".to_string())));
    let ask = SimulateAsk::Simulate { inner_instructions: true };
    let r = match simulate_transaction_v2(&mut heap, call(true, true, ask), event) {
        SimulateStepV2::Done(r) => r,
        other => panic!("{:?}", other),
    };
    assert_eq!(bytes(&heap, r.error_ptr), b"no".to_vec());
    assert_eq!(bytes(&heap, r.data_ptr), expected_outcome_bytes(true));
    assert_eq!(r.data_len, expected_outcome_bytes(true).len());
    free_leaked_bytes(&mut heap, r.error_ptr, r.error_len);
    free_leaked_bytes(&mut heap, r.data_ptr, r.data_len);
    assert_eq!(live(&heap), 0);
}

#[test]
fn encoded_reply_without_error_or_accounts() {
    let mut heap = Heap::new();
    let event = SimulateEvent::Simulated(outcome(Ok(())));
    match simulate_transaction_v2(&mut heap, call(false, false, simulate_ask()), event) {
        SimulateStepV2::Done(r) => {
            assert!(r.error_ptr.is_null());
            assert_eq!(r.error_len, 0);
            assert_eq!(bytes(&heap, r.data_ptr), expected_outcome_bytes(false));
        }
        other => panic!("{:?}", other),
    }
}

#[test]
fn outcome_without_encoding_is_a_panic() {
    let mut heap = Heap::new();
    let mut res = outcome(Err("lost".to_string()));
    res.inner_instructions = Some(vec![vec![InnerInstruction {
        program_id_index: 0,
        accounts: vec![],
        data: vec![0; 65536],
        stack_height: 1,
    }]]);
    let event = SimulateEvent::Simulated(res);
    let step = simulate_transaction_v2(&mut heap, call(false, true, simulate_ask()), event);
    assert_eq!(failure_v2(step, &mut heap), "simulate_transaction_v2 panic: Any { .. }");
    // The error of the transaction was handed over before, and stays.
    assert_eq!(live(&heap), 1);
}

fn res_with_data(n: usize) -> SimulateRes {
    SimulateRes {
        logs: vec![],
        units_consumed: 7,
        post_accounts: None,
        inner_instructions: Some(vec![vec![InnerInstruction {
            program_id_index: 0,
            accounts: vec![],
            data: vec![0; n],
            stack_height: 1,
        }]]),
    }
}

#[test]
fn encoding_of_the_smallest_outcome() {
    let res = SimulateRes {
        logs: vec![],
        units_consumed: 7,
        post_accounts: None,
        inner_instructions: None,
    };
    let expected = vec![0, 0, 0, 0, 0, 0, 0, 0, 7, 0, 0, 0, 0, 0, 0, 0, 0, 0];
    assert_eq!(encode_simulate_res(&res), Some(expected));
}

#[test]
fn encoding_stops_at_sixteen_bit_lengths() {
    assert!(encode_simulate_res(&res_with_data(65535)).is_some());
    assert!(encode_simulate_res(&res_with_data(65536)).is_none());
}

struct Account<'a>(&'a AccountC);

impl Serialize for Account<'_> {
    fn serialize<S: Serializer>(&self, s: S) -> Result<S::Ok, S::Error> {
        let mut out = s.serialize_struct("AccountC", 5)?;
        out.serialize_field("data", &self.0.data)?;
        out.serialize_field("owner", &solana_pubkey::Pubkey::new_from_array(self.0.owner.bytes))?;
        out.serialize_field("lamports", &self.0.lamports)?;
        out.serialize_field("executable", &self.0.executable)?;
        out.serialize_field("rent_epoch", &self.0.rent_epoch)?;
        out.end()
    }
}

struct Outcome<'a>(&'a SimulateRes);

impl Serialize for Outcome<'_> {
    fn serialize<S: Serializer>(&self, s: S) -> Result<S::Ok, S::Error> {
        let posts: Option<Vec<(solana_pubkey::Pubkey, Account)>> =
            self.0.post_accounts.as_ref().map(|list| {
                list.iter()
                    .map(|(k, a)| (solana_pubkey::Pubkey::new_from_array(k.bytes), Account(a)))
                    .collect()
            });
        let none: Option<Vec<solana_message::inner_instruction::InnerInstructions>> = None;
        let mut out = s.serialize_struct("SimulateRes", 4)?;
        out.serialize_field("logs", &self.0.logs)?;
        out.serialize_field("units_consumed", &self.0.units_consumed)?;
        out.serialize_field("post_accounts", &posts)?;
        out.serialize_field("inner_instructions", &none)?;
        out.end()
    }
}

#[test]
fn encoding_is_that_of_the_structure() {
    let res = SimulateRes {
        logs: vec!["a".to_string()],
        units_consumed: 1,
        post_accounts: Some(vec![
            (
                Pubkey { bytes: [1; 32] },
                AccountC {
                    data: vec![9, 8],
                    owner: Pubkey { bytes: [2; 32] },
                    lamports: 3,
                    executable: false,
                    rent_epoch: 4,
                },
            ),
        ]),
        inner_instructions: None,
    };
    assert_eq!(encode_simulate_res(&res), Some(bincode::serialize(&Outcome(&res)).unwrap()));
}
