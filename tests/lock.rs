use cowlock::data::{Decode, DecodeError, Encode};
use cowlock::lock::CowLock;

fn read_now(lock: &CowLock<u64>) -> u64 {
    let g = lock.read();
    *g
}

#[test]
fn new_lock_reads_initial_value() {
    let lock = CowLock::new(7u64);
    assert_eq!(read_now(&lock), 7);
}

#[test]
fn from_value_builds_lock() {
    let lock: CowLock<u64> = CowLock::from(11u64);
    assert_eq!(read_now(&lock), 11);
}

#[test]
fn read_sees_last_sequential_write() {
    let lock = CowLock::new(0u64);
    for v in [5u64, 9, 3] {
        let mut w = lock.write();
        *w = v;
    }
    assert_eq!(read_now(&lock), 3);
}

#[test]
fn increments_count_up() {
    let lock = CowLock::new(0u64);
    for _ in 0..25 {
        let mut w = lock.write();
        *w = *w + 1;
    }
    assert_eq!(read_now(&lock), 25);
}

#[test]
fn writer_copy_is_based_on_last_write() {
    let lock = CowLock::new(1u64);
    {
        let mut w = lock.write();
        *w = 40;
    }
    let w = lock.write();
    assert_eq!(*w, 40);
}

#[test]
fn overlapping_writers_last_drop_wins() {
    let lock = CowLock::new(0u64);
    let mut a = lock.write();
    let mut b = lock.write();
    *a = 10;
    *b = 20;
    drop(a);
    drop(b);
    assert_eq!(read_now(&lock), 20);
}

#[test]
fn scenario_two_writers_from_same_base() {
    let lock = CowLock::new(0u64);
    {
        let mut w = lock.write();
        *w = 1;
    }
    assert_eq!(read_now(&lock), 1);
    let mut c = lock.write();
    let mut d = lock.write();
    assert_eq!(*c, 1);
    assert_eq!(*d, 1);
    *c = *c + 1;
    *d = *d + 1;
    drop(c);
    drop(d);
    assert_eq!(read_now(&lock), 2);
}

#[test]
fn edit_hidden_until_drop() {
    let lock = CowLock::new(3u64);
    let mut w = lock.write();
    *w = 99;
    assert_eq!(read_now(&lock), 3);
    assert_eq!(read_now(&lock), 3);
    drop(w);
    assert_eq!(read_now(&lock), 99);
}

#[test]
fn many_readers_at_once() {
    let lock = CowLock::new(6u64);
    let r1 = lock.read();
    let r2 = lock.read();
    assert_eq!(*r1, 6);
    assert_eq!(*r2, 6);
}

#[test]
fn lock_encode_and_decode() {
    let lock = CowLock::new(0x0102_0304_0506_0708u64);
    let mut out: Vec<u8> = Vec::new();
    lock.encode(&mut out);
    assert_eq!(out, vec![8, 7, 6, 5, 4, 3, 2, 1]);
    assert_eq!(lock.bytes_len(), out.len());
    let back = CowLock::<u64>::decode(&out).ok().unwrap();
    assert_eq!(read_now(&back), 0x0102_0304_0506_0708);
}

#[test]
fn lock_encodes_pending_write() {
    let lock = CowLock::new(1u64);
    {
        let mut w = lock.write();
        *w = 258;
    }
    let mut out: Vec<u8> = Vec::new();
    lock.encode(&mut out);
    assert_eq!(out, vec![2, 1, 0, 0, 0, 0, 0, 0]);
}

#[test]
fn lock_decode_short_input_fails() {
    let r = CowLock::<u64>::decode(&[1, 2, 3]);
    assert!(matches!(r, Err(DecodeError::UnexpectedEnd)));
}

#[test]
fn u64_round_trip() {
    let x: u64 = 0xdead_beef_0bad_f00d;
    let mut out: Vec<u8> = vec![0xaa];
    x.encode(&mut out);
    assert_eq!(out.len(), 1 + x.bytes_len());
    assert_eq!(out[0], 0xaa);
    assert_eq!(u64::decode(&out[1..]), Ok(x));
}

#[test]
fn u64_decode_then_encode_gives_bytes() {
    let bytes: Vec<u8> = vec![1, 2, 3, 4, 5, 6, 7, 8];
    let x = u64::decode(&bytes).unwrap();
    assert_eq!(x, 0x0807_0605_0403_0201);
    let mut out: Vec<u8> = Vec::new();
    x.encode(&mut out);
    assert_eq!(out, bytes);
}

#[test]
fn u64_decode_reads_prefix() {
    let bytes: Vec<u8> = vec![255, 0, 0, 0, 0, 0, 0, 0, 9, 9];
    assert_eq!(u64::decode(&bytes), Ok(255));
}

#[test]
fn u64_decode_empty_fails() {
    assert_eq!(u64::decode(&[]), Err(DecodeError::UnexpectedEnd));
    assert_eq!(u64::decode(&[0; 7]), Err(DecodeError::UnexpectedEnd));
}

#[test]
fn u64_extremes_encode() {
    let mut out: Vec<u8> = Vec::new();
    u64::MAX.encode(&mut out);
    0u64.encode(&mut out);
    assert_eq!(out, vec![255, 255, 255, 255, 255, 255, 255, 255, 0, 0, 0, 0, 0, 0, 0, 0]);
}
