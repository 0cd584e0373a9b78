use way2fa::acc::{counter_to_bytes, dynamic_truncate, Account, CODE_MODULUS, DEFAULT_INTERVAL};

const RFC_KEY: &[u8] = b"12345678901234567890";

fn account(key: &[u8], interv: Option<u64>) -> Account {
    Account { name: String::from("demo"), acc_id: None, key: key.to_vec(), interv }
}

#[test]
fn known_vector_counter_one() {
    let acc = account(RFC_KEY, None);
    assert_eq!(acc.gen_key(1), 94287082 % 1_000_000);
    assert_eq!(acc.gen_key(1), 287082);
}

#[test]
fn known_vectors_first_ten_counters() {
    let acc = account(RFC_KEY, None);
    let expected: [u32; 10] =
        [755224, 287082, 359152, 969429, 338314, 254676, 287922, 162583, 399871, 520489];
    for (nth, want) in expected.iter().enumerate() {
        assert_eq!(acc.gen_key(nth as u64), *want);
    }
}

#[test]
fn known_vectors_by_time() {
    let acc = account(RFC_KEY, Some(30));
    assert_eq!(acc.current_code(59), 287082);
    assert_eq!(acc.current_code(1111111109), 81804);
    assert_eq!(acc.current_code(1111111111), 50471);
    assert_eq!(acc.current_code(1234567890), 5924);
    assert_eq!(acc.current_code(2000000000), 279037);
    assert_eq!(acc.current_code(20000000000), 353130);
}

#[test]
fn code_changes_with_key_and_counter() {
    let a = account(RFC_KEY, None);
    let b = account(b"another secret", None);
    assert_ne!(a.gen_key(1), a.gen_key(2));
    assert_ne!(a.gen_key(1), b.gen_key(1));
}

#[test]
fn generation_is_deterministic_and_in_range() {
    let keys: [&[u8]; 4] = [b"k", RFC_KEY, &[0u8; 64], &[0xffu8; 200]];
    let counters: [u64; 6] = [0, 1, 2, 1 << 32, (1 << 63) - 1, u64::MAX];
    for key in keys.iter() {
        let acc = account(key, None);
        for nth in counters.iter() {
            let first = acc.gen_key(*nth);
            let second = acc.gen_key(*nth);
            assert_eq!(first, second);
            assert!(first < CODE_MODULUS);
            assert!(first <= 999_999);
        }
    }
}

#[test]
fn empty_key_is_not_refused() {
    let acc = account(b"", None);
    assert_eq!(acc.gen_key(7), acc.gen_key(7));
    assert!(acc.gen_key(7) < 1_000_000);
}

#[test]
fn counter_bytes_are_big_endian() {
    assert_eq!(counter_to_bytes(0), [0, 0, 0, 0, 0, 0, 0, 0]);
    assert_eq!(counter_to_bytes(1), [0, 0, 0, 0, 0, 0, 0, 1]);
    assert_eq!(counter_to_bytes(0x0102030405060708), [1, 2, 3, 4, 5, 6, 7, 8]);
    assert_eq!(counter_to_bytes(u64::MAX), [0xff; 8]);
    assert_eq!(counter_to_bytes(0xdead_beef), 0xdead_beefu64.to_be_bytes());
}

#[test]
fn truncation_reads_the_word_at_the_offset() {
    let digest: [u8; 20] = [
        0x1f, 0x86, 0x98, 0x69, 0x0e, 0x02, 0xca, 0x16, 0x61, 0x85, 0x50, 0xef, 0x7f, 0x19, 0xda,
        0x8e, 0x94, 0x5b, 0x55, 0x5a,
    ];
    assert_eq!(dynamic_truncate(&digest), 872921);
    assert_eq!(dynamic_truncate(&digest), (0x50ef7f19u32 & 0x7fff_ffff) % 1_000_000);
}

#[test]
fn truncation_clears_the_top_bit() {
    let mut digest: [u8; 20] = [0; 20];
    digest[0] = 0xff;
    digest[1] = 0xff;
    digest[2] = 0xff;
    digest[3] = 0xff;
    assert_eq!(dynamic_truncate(&digest), 0x7fff_ffff % 1_000_000);
    assert_eq!(dynamic_truncate(&digest), 483647);
}

#[test]
fn truncation_at_the_last_offset() {
    let mut digest: [u8; 20] = [0; 20];
    digest[15] = 0x00;
    digest[16] = 0x0f;
    digest[17] = 0x42;
    digest[18] = 0x41;
    digest[19] = 0x0f;
    assert_eq!(dynamic_truncate(&digest), 1);
}

#[test]
fn interval_defaults_to_thirty() {
    assert_eq!(DEFAULT_INTERVAL, 30);
    assert_eq!(account(RFC_KEY, None).interval(), 30);
    assert_eq!(account(RFC_KEY, Some(60)).interval(), 60);
}

#[test]
fn counters_are_floored_independently() {
    let a = account(RFC_KEY, Some(30));
    let b = account(RFC_KEY, Some(60));
    let now: u64 = 90;
    assert_eq!(a.counter(now), 3);
    assert_eq!(b.counter(now), 1);
    assert_eq!(a.current_code(now), a.gen_key(3));
    assert_eq!(b.current_code(now), b.gen_key(1));
    assert_eq!(a.peek_code(now), a.gen_key(4));
    assert_eq!(b.peek_code(now), b.gen_key(2));
    assert_eq!(a.current_code(now), 969429);
    assert_eq!(b.current_code(now), 287082);
    assert_eq!(a.peek_code(now), 338314);
    assert_eq!(b.peek_code(now), 359152);
}

#[test]
fn peek_is_the_next_current_code() {
    let acc = account(RFC_KEY, Some(30));
    for now in [0u64, 29, 30, 59, 1_700_000_000] {
        assert_eq!(acc.peek_code(now), acc.current_code(now + 30));
    }
}

#[test]
fn seconds_remaining_exact_values() {
    let acc = account(RFC_KEY, Some(30));
    assert_eq!(acc.seconds_remaining(0), 30);
    assert_eq!(acc.seconds_remaining(1), 29);
    assert_eq!(acc.seconds_remaining(29), 1);
    assert_eq!(acc.seconds_remaining(30), 30);
    assert_eq!(acc.seconds_remaining(90), 30);
    assert_eq!(acc.seconds_remaining(91), 29);
    let slow = account(RFC_KEY, Some(60));
    assert_eq!(slow.seconds_remaining(90), 30);
    assert_eq!(slow.seconds_remaining(119), 1);
    assert_eq!(slow.seconds_remaining(120), 60);
}

#[test]
fn seconds_remaining_counts_down_within_a_step() {
    let acc = account(RFC_KEY, Some(45));
    let start: u64 = 45 * 1000;
    let mut last = acc.seconds_remaining(start);
    assert_eq!(last, 45);
    for now in (start + 1)..(start + 45) {
        let left = acc.seconds_remaining(now);
        assert!(0 < left && left <= 45);
        assert!(left < last);
        assert_eq!(last - left, 1);
        last = left;
    }
    assert_eq!(acc.seconds_remaining(start + 45), 45);
}

#[test]
fn seconds_remaining_with_interval_one() {
    let acc = account(RFC_KEY, Some(1));
    assert_eq!(acc.seconds_remaining(0), 1);
    assert_eq!(acc.seconds_remaining(12345), 1);
    assert_eq!(acc.seconds_remaining(u64::MAX), 1);
}
