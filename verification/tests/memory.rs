use rpc_plugin::{
    allocation_to_leaked_bytes, boxed_to_leaked_bytes, ffi_to_vec_pubkey, free_account,
    free_err_msg, free_leaked_bytes, free_pubkey_array, logs_to_logarray, post_accounts_to_array,
    string_to_c_str, string_to_leaked_bytes, to_account_c_repr, vecu8_to_leaked_bytes, AccountCRepr,
    AccountSharedData, Block, Heap, Pointer, Pubkey, PubkeyArray, PubkeyRepr,
};

fn live(heap: &Heap) -> usize {
    // Every live block prints under the name of its kind, once.
    let shown = format!("{:?}", heap);
    shown.matches("Some(").count()
}

fn bytes(heap: &Heap, p: Pointer) -> Vec<u8> {
    match p {
        Pointer::To(a) => match heap.get(a) {
            Block::Bytes(v) => v.clone(),
            other => panic!("not a buffer: {:?}", other),
        },
        _ => panic!("nothing behind {:?}", p),
    }
}

fn account(data: Vec<u8>, executable: bool) -> AccountSharedData {
    AccountSharedData {
        lamports: 5,
        data,
        owner: Pubkey::new_from_array([9; 32]),
        executable,
        rent_epoch: 77,
    }
}

#[test]
fn string_bytes_are_utf8() {
    let mut heap = Heap::new();
    let (ptr, len) = string_to_leaked_bytes(&mut heap, "h\u{e9}".to_string());
    assert_eq!(len, 3);
    assert_eq!(bytes(&heap, ptr), vec![0x68, 0xc3, 0xa9]);
    free_leaked_bytes(&mut heap, ptr, len);
    assert_eq!(live(&heap), 0);
}

#[test]
fn empty_string_takes_no_block() {
    let mut heap = Heap::new();
    let (ptr, len) = string_to_leaked_bytes(&mut heap, String::new());
    assert_eq!((ptr, len), (Pointer::Dangling, 0));
    assert!(!ptr.is_null());
    assert_eq!(live(&heap), 0);
    free_leaked_bytes(&mut heap, ptr, len);
    assert_eq!(live(&heap), 0);
}

#[test]
fn vector_is_handed_over_and_freed() {
    let mut heap = Heap::new();
    let (first, n) = vecu8_to_leaked_bytes(&mut heap, vec![1, 2, 3]);
    let (second, m) = vecu8_to_leaked_bytes(&mut heap, vec![4]);
    assert_ne!(first, second);
    assert_eq!((n, m), (3, 1));
    free_leaked_bytes(&mut heap, first, n);
    assert_eq!(bytes(&heap, second), vec![4]);
    free_leaked_bytes(&mut heap, second, m);
    assert_eq!(live(&heap), 0);
}

#[test]
fn vector_keeps_its_allocation() {
    let mut heap = Heap::new();
    let mut v = Vec::with_capacity(100);
    v.push(7);
    let room = v.capacity();
    let (ptr, len) = vecu8_to_leaked_bytes(&mut heap, v);
    assert_eq!(len, 1);
    match ptr {
        Pointer::To(a) => match heap.get(a) {
            Block::Vector { bytes, capacity } => {
                assert_eq!((bytes.as_slice(), *capacity), (&[7u8][..], room));
            }
            other => panic!("{:?}", other),
        },
        p => panic!("{:?}", p),
    }
}

#[test]
fn empty_vector_with_capacity_is_a_block() {
    let mut heap = Heap::new();
    let (ptr, len) = vecu8_to_leaked_bytes(&mut heap, Vec::with_capacity(8));
    assert_eq!((len, live(&heap)), (0, 1));
    // Of length 0, it is left alone.
    free_leaked_bytes(&mut heap, ptr, len);
    assert_eq!(live(&heap), 1);
    let (ptr, len) = vecu8_to_leaked_bytes(&mut heap, Vec::new());
    assert_eq!((ptr, len, live(&heap)), (Pointer::Dangling, 0, 1));
    let (ptr, len) = boxed_to_leaked_bytes(&mut heap, Vec::with_capacity(8));
    assert_eq!((ptr, len, live(&heap)), (Pointer::Dangling, 0, 1));
}

#[test]
fn allocation_of_given_capacity() {
    let mut heap = Heap::new();
    let (ptr, len) = allocation_to_leaked_bytes(&mut heap, vec![1, 2], 2);
    free_leaked_bytes(&mut heap, ptr, len);
    assert_eq!(live(&heap), 0);
    let (ptr, len) = allocation_to_leaked_bytes(&mut heap, vec![1, 2], 3);
    assert_eq!(len, 2);
    match ptr {
        Pointer::To(a) => assert_eq!(heap.get(a).bytes(), Some(&vec![1, 2])),
        p => panic!("{:?}", p),
    }
}

#[test]
fn null_is_never_freed() {
    let mut heap = Heap::new();
    let (ptr, _) = vecu8_to_leaked_bytes(&mut heap, vec![1]);
    free_leaked_bytes(&mut heap, Pointer::Null, 1);
    free_leaked_bytes(&mut heap, ptr, 0);
    free_err_msg(&mut heap, Pointer::Null);
    free_account(&mut heap, Pointer::Null);
    free_pubkey_array(&mut heap, PubkeyArray { ptr: Pointer::Null, len: 3 });
    assert_eq!(live(&heap), 1);
}

#[test]
fn c_string_ends_in_nul() {
    let mut heap = Heap::new();
    let ptr = string_to_c_str(&mut heap, "ab".to_string());
    match ptr {
        Pointer::To(a) => match heap.get(a) {
            Block::CStr(v) => assert_eq!(v, &vec![b'a', b'b', 0]),
            other => panic!("{:?}", other),
        },
        _ => panic!("{:?}", ptr),
    }
    free_err_msg(&mut heap, ptr);
    assert_eq!(live(&heap), 0);
}

#[test]
fn no_logs_are_null() {
    let mut heap = Heap::new();
    let logs = logs_to_logarray(&mut heap, vec![]);
    assert_eq!((logs.ptr, logs.len), (Pointer::Null, 0));
    assert_eq!(live(&heap), 0);
}

#[test]
fn logs_keep_their_order() {
    let mut heap = Heap::new();
    let lines = vec!["one".to_string(), String::new(), "two".to_string()];
    let logs = logs_to_logarray(&mut heap, lines);
    assert_eq!(logs.len, 3);
    assert_eq!(live(&heap), 3);
    let entries = match logs.ptr {
        Pointer::To(a) => match heap.take(a) {
            Block::Logs(v) => v,
            other => panic!("{:?}", other),
        },
        p => panic!("{:?}", p),
    };
    assert_eq!(bytes(&heap, entries[0].ptr), b"one".to_vec());
    assert_eq!((entries[1].ptr, entries[1].len), (Pointer::Dangling, 0));
    assert_eq!(bytes(&heap, entries[2].ptr), b"two".to_vec());
    for e in entries {
        free_leaked_bytes(&mut heap, e.ptr, e.len);
    }
    assert_eq!(live(&heap), 0);
}

#[test]
fn account_is_described_field_by_field() {
    let mut heap = Heap::new();
    let c = to_account_c_repr(&mut heap, account(vec![1, 2], true));
    assert_eq!(c.lamports, 5);
    assert_eq!(c.owner, [9; 32]);
    assert_eq!(c.executable, 1);
    assert_eq!(c.rent_epoch, 77);
    assert_eq!(c.data_len, 2);
    assert_eq!(bytes(&heap, c.data_ptr), vec![1, 2]);
    let p = heap.place(Block::Account(c));
    assert_eq!(live(&heap), 2);
    free_account(&mut heap, p);
    assert_eq!(live(&heap), 0);
}

#[test]
fn account_without_data_is_one_block() {
    let mut heap = Heap::new();
    let c = to_account_c_repr(&mut heap, account(vec![], false));
    assert_eq!((c.data_ptr, c.data_len, c.executable), (Pointer::Dangling, 0, 0));
    let p = heap.place(Block::Account(c));
    free_account(&mut heap, p);
    assert_eq!(live(&heap), 0);
}

#[test]
fn account_with_null_data_is_freed() {
    let mut heap = Heap::new();
    let c = AccountCRepr {
        lamports: 0,
        data_ptr: Pointer::Null,
        data_len: 4,
        owner: [0; 32],
        executable: 0,
        rent_epoch: 0,
    };
    let p = heap.place(Block::Account(c));
    free_account(&mut heap, p);
    assert_eq!(live(&heap), 0);
}

#[test]
fn pubkeys_are_read_and_freed() {
    let mut heap = Heap::new();
    let keys = vec![PubkeyRepr { bytes: [1; 32] }, PubkeyRepr { bytes: [2; 32] }];
    let ptr = heap.place(Block::Pubkeys(keys));
    let pks = ffi_to_vec_pubkey(&mut heap, PubkeyArray { ptr, len: 2 });
    assert_eq!(pks, vec![Pubkey { bytes: [1; 32] }, Pubkey { bytes: [2; 32] }]);
    assert_eq!(pks[1].to_bytes(), [2; 32]);
    assert_eq!(live(&heap), 0);
}

#[test]
fn pubkeys_of_length_zero_are_left_alone() {
    let mut heap = Heap::new();
    let ptr = heap.place(Block::Pubkeys(vec![PubkeyRepr { bytes: [1; 32] }]));
    assert!(ffi_to_vec_pubkey(&mut heap, PubkeyArray { ptr, len: 0 }).is_empty());
    assert!(ffi_to_vec_pubkey(&mut heap, PubkeyArray { ptr: Pointer::Null, len: 1 }).is_empty());
    assert_eq!(live(&heap), 1);
    free_pubkey_array(&mut heap, PubkeyArray { ptr, len: 1 });
    assert_eq!(live(&heap), 0);
}

#[test]
fn no_post_accounts_and_an_empty_list_differ() {
    let mut heap = Heap::new();
    let none = post_accounts_to_array(&mut heap, None);
    assert_eq!((none.ptr, none.len), (Pointer::Null, 0));
    let empty = post_accounts_to_array(&mut heap, Some(vec![]));
    assert_eq!((empty.ptr, empty.len), (Pointer::Dangling, 0));
    assert_eq!(live(&heap), 0);
}

#[test]
fn post_accounts_stay_under_their_addresses() {
    let mut heap = Heap::new();
    let a = to_account_c_repr(&mut heap, account(vec![1], false));
    let b = to_account_c_repr(&mut heap, account(vec![2, 2], true));
    let list = vec![(Pubkey { bytes: [3; 32] }, a), (Pubkey { bytes: [4; 32] }, b)];
    let posts = post_accounts_to_array(&mut heap, Some(list));
    assert_eq!(posts.len, 2);
    let entries = match posts.ptr {
        Pointer::To(p) => match heap.take(p) {
            Block::PostAccounts(v) => v,
            other => panic!("{:?}", other),
        },
        p => panic!("{:?}", p),
    };
    assert_eq!(entries[0].pubkey, [3; 32]);
    assert_eq!(entries[1].pubkey, [4; 32]);
    match entries[1].account {
        Pointer::To(p) => match heap.get(p) {
            Block::Account(c) => assert_eq!(*c, b),
            other => panic!("{:?}", other),
        },
        p => panic!("{:?}", p),
    }
    for e in entries {
        free_account(&mut heap, e.account);
    }
    assert_eq!(live(&heap), 0);
}
