//! Accounts and the six-digit codes they produce.

use hmac::{Hmac, Mac};
use sha1::Sha1;
use vstd::prelude::*;

verus! {

/// Codes are the decimal digits below this bound.
pub const CODE_MODULUS: u32 = 1_000_000;

/// Seconds between code changes when an account names no interval.
pub const DEFAULT_INTERVAL: u64 = 30;

/// The HMAC-SHA1 tag (RFC 2104 over SHA-1) of `msg` under `key`.
pub uninterp spec fn hmac_sha1(key: Seq<u8>, msg: Seq<u8>) -> Seq<u8>;

/// The weight of byte `i` in an eight-byte big-endian number.
pub open spec fn place(i: int) -> int {
    if i == 0 {
        0x100_0000_0000_0000
    } else if i == 1 {
        0x1_0000_0000_0000
    } else if i == 2 {
        0x100_0000_0000
    } else if i == 3 {
        0x1_0000_0000
    } else if i == 4 {
        0x100_0000
    } else if i == 5 {
        0x1_0000
    } else if i == 6 {
        0x100
    } else {
        1
    }
}

/// Byte `i` of the eight-byte big-endian encoding of `n`.
pub open spec fn be_byte(n: u64, i: int) -> u8 {
    ((n as int / place(i)) % 256) as u8
}

/// The eight-byte big-endian encoding of a counter.
pub open spec fn counter_bytes(n: u64) -> Seq<u8> {
    Seq::new(8, |i: int| be_byte(n, i))
}

/// The number that eight big-endian bytes encode.
pub open spec fn be_value(bytes: Seq<u8>) -> int {
    bytes[0] * place(0) + bytes[1] * place(1) + bytes[2] * place(2) + bytes[3] * place(3)
        + bytes[4] * place(4) + bytes[5] * place(5) + bytes[6] * place(6) + bytes[7] * place(7)
}

/// Where in a digest the code is read: the low four bits of its last byte.
pub open spec fn truncation_offset(digest: Seq<u8>) -> int {
    digest.last() as int % 16
}

/// The four bytes of `digest` from `at` on, read as a big-endian number.
pub open spec fn be_word(digest: Seq<u8>, at: int) -> int {
    digest[at] * 0x100_0000 + digest[at + 1] * 0x1_0000 + digest[at + 2] * 0x100 + digest[at + 3]
}

/// The code that a 20-byte digest stands for: the word at the truncation
/// offset, without its top bit, reduced to six decimal digits.
pub open spec fn truncated(digest: Seq<u8>) -> int {
    (be_word(digest, truncation_offset(digest)) % 0x8000_0000) % 1_000_000
}

/// The code of `key` at time step `counter`.
pub open spec fn code_at(key: Seq<u8>, counter: u64) -> int {
    truncated(hmac_sha1(key, counter_bytes(counter)))
}

/// Encodes a counter as eight bytes, most significant first.
pub fn counter_to_bytes(counter: u64) -> (out: [u8; 8])
    ensures
        out@ == counter_bytes(counter),
{
    let b0: u8 = (counter >> 56) as u8;
    let b1: u8 = ((counter >> 48) & 0xff) as u8;
    let b2: u8 = ((counter >> 40) & 0xff) as u8;
    let b3: u8 = ((counter >> 32) & 0xff) as u8;
    let b4: u8 = ((counter >> 24) & 0xff) as u8;
    let b5: u8 = ((counter >> 16) & 0xff) as u8;
    let b6: u8 = ((counter >> 8) & 0xff) as u8;
    let b7: u8 = (counter & 0xff) as u8;
    proof {
        assert((counter >> 56) == (counter / 0x100_0000_0000_0000) % 256) by (bit_vector);
        assert((counter >> 48) & 0xff == (counter / 0x1_0000_0000_0000) % 256) by (bit_vector);
        assert((counter >> 40) & 0xff == (counter / 0x100_0000_0000) % 256) by (bit_vector);
        assert((counter >> 32) & 0xff == (counter / 0x1_0000_0000) % 256) by (bit_vector);
        assert((counter >> 24) & 0xff == (counter / 0x100_0000) % 256) by (bit_vector);
        assert((counter >> 16) & 0xff == (counter / 0x1_0000) % 256) by (bit_vector);
        assert((counter >> 8) & 0xff == (counter / 0x100) % 256) by (bit_vector);
        assert(counter & 0xff == (counter / 1) % 256) by (bit_vector);
    }
    let out: [u8; 8] = [b0, b1, b2, b3, b4, b5, b6, b7];
    assert(out@ =~= counter_bytes(counter));
    out
}

/// Reads the code out of an HMAC-SHA1 digest.
pub fn dynamic_truncate(digest: &[u8; 20]) -> (code: u32)
    ensures
        code == truncated(digest@),
        code < CODE_MODULUS,
{
    let last: u8 = digest[19];
    let ix: usize = (last & 0xf) as usize;
    assert(last & 0xf == last % 16) by (bit_vector);
    let b0: u32 = digest[ix] as u32;
    let b1: u32 = digest[ix + 1] as u32;
    let b2: u32 = digest[ix + 2] as u32;
    let b3: u32 = digest[ix + 3] as u32;
    let word: u32 = (b0 << 24) | (b1 << 16) | (b2 << 8) | b3;
    assert(((b0 << 24) | (b1 << 16) | (b2 << 8) | b3) & 0x7fff_ffff == (b0 * 0x100_0000 + b1
        * 0x1_0000 + b2 * 0x100 + b3) % 0x8000_0000) by (bit_vector)
        requires
            b0 < 256,
            b1 < 256,
            b2 < 256,
            b3 < 256,
    ;
    (word & 0x7fff_ffff) % CODE_MODULUS
}

/// Computes HMAC-SHA1 with the `hmac` and `sha1` crates: `Mac::new_from_slice`
/// on the key, which for HMAC accepts every length, then `Mac::update` with
/// the message and `Mac::finalize`. The contract names the 20-byte tag; it
/// claims nothing of its value beyond being that function of key and message.
#[verifier::external_body]
fn hmac_sha1_digest(key: &[u8], msg: &[u8]) -> (digest: [u8; 20])
    ensures
        digest@ == hmac_sha1(key@, msg@),
{
    let mut mac = Hmac::<Sha1>::new_from_slice(key).expect("HMAC can take key of any size");
    mac.update(msg);
    mac.finalize().into_bytes().into()
}

/// A single entry: a named secret with the pace at which its codes change.
#[derive(Debug, Clone)]
pub struct Account {
    pub name: String,
    pub acc_id: Option<String>,
    pub key: Vec<u8>,
    pub interv: Option<u64>,
}

/// An account as plain values: what its name, qualifier and secret hold.
pub struct AccountView {
    pub name: Seq<char>,
    pub acc_id: Option<Seq<char>>,
    pub key: Seq<u8>,
    pub interv: Option<u64>,
}

impl AccountView {
    /// Seconds between two code changes: the interval named, or 30.
    pub open spec fn period(&self) -> int {
        match self.interv {
            Some(secs) => secs as int,
            None => DEFAULT_INTERVAL as int,
        }
    }

    /// An account that can be shown: it has a name, a secret and a positive
    /// interval.
    pub open spec fn valid(&self) -> bool {
        &&& self.name.len() > 0
        &&& self.key.len() > 0
        &&& self.period() > 0
    }
}

impl View for Account {
    type V = AccountView;

    open spec fn view(&self) -> AccountView {
        AccountView {
            name: self.name@,
            acc_id: self.acc_id.deep_view(),
            key: self.key@,
            interv: self.interv,
        }
    }
}

impl DeepView for Account {
    type V = AccountView;

    open spec fn deep_view(&self) -> AccountView {
        self@
    }
}

impl Account {
    /// Generates the six-digit code of time step `nth`.
    pub fn gen_key(&self, nth: u64) -> (code: u32)
        ensures
            code == code_at(self.key@, nth),
            code < CODE_MODULUS,
    {
        let msg: [u8; 8] = counter_to_bytes(nth);
        let digest: [u8; 20] = hmac_sha1_digest(self.key.as_slice(), msg.as_slice());
        dynamic_truncate(&digest)
    }

    /// Seconds between two code changes of this account.
    pub open spec fn period(&self) -> int {
        self@.period()
    }

    /// An account that can be shown: it has a name, a secret and a positive
    /// interval.
    pub open spec fn wf(&self) -> bool {
        self@.valid()
    }

    /// The time step that the second `now` falls in.
    pub open spec fn step_at(&self, now: u64) -> int {
        now as int / self.period()
    }

    /// Seconds between two code changes; 30 where the account names none.
    pub fn interval(&self) -> (secs: u64)
        ensures
            secs == self.period(),
    {
        match self.interv {
            Some(secs) => secs,
            None => DEFAULT_INTERVAL,
        }
    }

    /// The time step of `now`, a Unix time in whole seconds.
    pub fn counter(&self, now: u64) -> (nth: u64)
        requires
            self.period() > 0,
        ensures
            nth == self.step_at(now),
    {
        now / self.interval()
    }

    /// The code that is valid at `now`.
    pub fn current_code(&self, now: u64) -> (code: u32)
        requires
            self.period() > 0,
        ensures
            code == code_at(self.key@, self.step_at(now) as u64),
            code < CODE_MODULUS,
    {
        self.gen_key(self.counter(now))
    }

    /// The code of the time step after the one of `now`.
    pub fn peek_code(&self, now: u64) -> (code: u32)
        requires
            self.period() > 0,
            self.step_at(now) < u64::MAX,
        ensures
            code == code_at(self.key@, (self.step_at(now) + 1) as u64),
            code < CODE_MODULUS,
    {
        self.gen_key(self.counter(now) + 1)
    }

    /// Seconds until the code of `now` gives way to the next one.
    pub fn seconds_remaining(&self, now: u64) -> (secs: u64)
        requires
            self.period() > 0,
        ensures
            secs == remaining(self.period(), now as int),
            0 < secs <= self.period(),
    {
        let every: u64 = self.interval();
        every - now % every
    }
}

/// Seconds left in the time step of `now`, for steps of `period` seconds.
pub open spec fn remaining(period: int, now: int) -> int {
    period - now % period
}

/// Every account of the list can be shown.
pub open spec fn all_wf(accounts: Seq<Account>) -> bool {
    forall|i: int| 0 <= i < accounts.len() ==> (#[trigger] accounts[i]).wf()
}

/// The four bytes of the code lie inside a 20-byte digest, wherever its last
/// byte points.
pub proof fn lemma_offset_in_digest(digest: Seq<u8>)
    requires
        digest.len() == 20,
    ensures
        0 <= truncation_offset(digest) <= 15,
        truncation_offset(digest) + 4 <= digest.len(),
{
}

/// Every code has at most six digits, whatever the key and the time step.
pub proof fn lemma_code_in_range(key: Seq<u8>, counter: u64)
    ensures
        0 <= code_at(key, counter) <= 999_999,
{
}

/// The code depends on the key bytes and the time step alone: equal inputs
/// give equal codes.
pub proof fn lemma_code_deterministic(key_a: Seq<u8>, step_a: u64, key_b: Seq<u8>, step_b: u64)
    requires
        key_a == key_b,
        step_a == step_b,
    ensures
        code_at(key_a, step_a) == code_at(key_b, step_b),
{
}

/// Eight big-endian bytes stand for the counter they were made from.
pub proof fn lemma_counter_bytes_value(counter: u64)
    ensures
        counter_bytes(counter).len() == 8,
        be_value(counter_bytes(counter)) == counter,
{
    let n: int = counter as int;
    let q1: int = n / 0x100;
    let q2: int = n / 0x1_0000;
    let q3: int = n / 0x100_0000;
    let q4: int = n / 0x1_0000_0000;
    let q5: int = n / 0x100_0000_0000;
    let q6: int = n / 0x1_0000_0000_0000;
    let q7: int = n / 0x100_0000_0000_0000;
    assert(q2 == q1 / 256);
    assert(q3 == q2 / 256);
    assert(q4 == q3 / 256);
    assert(q5 == q4 / 256);
    assert(q6 == q5 / 256);
    assert(q7 == q6 / 256);
    assert(q7 < 256);
    let bytes: Seq<u8> = counter_bytes(counter);
    assert(bytes[7] == n % 256);
    assert(bytes[6] == q1 % 256);
    assert(bytes[5] == q2 % 256);
    assert(bytes[4] == q3 % 256);
    assert(bytes[3] == q4 % 256);
    assert(bytes[2] == q5 % 256);
    assert(bytes[1] == q6 % 256);
    assert(bytes[0] == q7);
    assert(q6 == q7 * 256 + bytes[1]);
    assert(q5 == q6 * 256 + bytes[2]);
    assert(q4 == q5 * 256 + bytes[3]);
    assert(q3 == q4 * 256 + bytes[4]);
    assert(q2 == q3 * 256 + bytes[5]);
    assert(q1 == q2 * 256 + bytes[6]);
    assert(n == q1 * 256 + bytes[7]);
}

/// The countdown is never zero and never more than the interval.
pub proof fn lemma_remaining_bounds(period: int, now: int)
    requires
        period > 0,
        now >= 0,
    ensures
        0 < remaining(period, now) <= period,
{
}

/// Within one time step the countdown falls by one with each second.
pub proof fn lemma_remaining_decreases(period: int, earlier: int, later: int)
    requires
        period > 0,
        0 <= earlier < later,
        earlier / period == later / period,
    ensures
        remaining(period, later) < remaining(period, earlier),
        remaining(period, earlier) - remaining(period, later) == later - earlier,
{
    assert(earlier == period * (earlier / period) + earlier % period) by (nonlinear_arith)
        requires
            period > 0,
    ;
    assert(later == period * (later / period) + later % period) by (nonlinear_arith)
        requires
            period > 0,
    ;
}

/// The countdown shows the whole interval exactly at the start of a time step.
pub proof fn lemma_remaining_resets(period: int, now: int)
    requires
        period > 0,
        now >= 0,
    ensures
        remaining(period, now) == period <==> now % period == 0,
{
}

} // verus!
