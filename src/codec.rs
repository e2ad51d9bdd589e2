use vstd::prelude::*;

verus! {

/// Number of bytes an account record occupies on the wire.
pub const ACCOUNT_INFO_LEN: usize = 80;

/// Balances held by an account, in base units.
#[derive(Clone, Copy, Debug, PartialEq, Eq, Structural)]
pub struct AccountData {
    pub free: u128,
    pub reserved: u128,
    pub frozen: u128,
    pub flags: u128,
}

/// The ledger's record of an account: counters followed by its balances.
#[derive(Clone, Copy, Debug, PartialEq, Eq, Structural)]
pub struct AccountInfo {
    pub nonce: u32,
    pub consumers: u32,
    pub providers: u32,
    pub sufficients: u32,
    pub data: AccountData,
}

/// The input ended before every field of the record was read.
#[derive(Clone, Copy, Debug, PartialEq, Eq, Structural)]
pub struct DecodeError;

/// `256^n`.
pub open spec fn pow256(n: nat) -> nat
    decreases n,
{
    if n == 0 {
        1
    } else {
        256 * pow256((n - 1) as nat)
    }
}

/// The unsigned integer whose little-endian bytes are `b`.
pub open spec fn le_value(b: Seq<u8>) -> nat
    decreases b.len(),
{
    if b.len() == 0 {
        0
    } else {
        b[0] as nat + 256 * le_value(b.drop_first())
    }
}

/// The `n` low-order little-endian bytes of `v`.
pub open spec fn le_bytes(v: nat, n: nat) -> Seq<u8>
    decreases n,
{
    if n == 0 {
        Seq::empty()
    } else {
        seq![(v % 256) as u8] + le_bytes(v / 256, (n - 1) as nat)
    }
}

/// The integer held in the `n` bytes of `b` that start at `at`.
pub open spec fn field_at(b: Seq<u8>, at: int, n: int) -> nat {
    le_value(b.subrange(at, at + n))
}

/// The record that the first 80 bytes of `b` describe.
pub open spec fn decoded(b: Seq<u8>) -> AccountInfo {
    AccountInfo {
        nonce: field_at(b, 0, 4) as u32,
        consumers: field_at(b, 4, 4) as u32,
        providers: field_at(b, 8, 4) as u32,
        sufficients: field_at(b, 12, 4) as u32,
        data: AccountData {
            free: field_at(b, 16, 16) as u128,
            reserved: field_at(b, 32, 16) as u128,
            frozen: field_at(b, 48, 16) as u128,
            flags: field_at(b, 64, 16) as u128,
        },
    }
}

/// The 80 wire bytes of a record.
pub open spec fn encoded(i: AccountInfo) -> Seq<u8> {
    le_bytes(i.nonce as nat, 4) + le_bytes(i.consumers as nat, 4) + le_bytes(i.providers as nat, 4)
        + le_bytes(i.sufficients as nat, 4) + le_bytes(i.data.free as nat, 16) + le_bytes(
        i.data.reserved as nat,
        16,
    ) + le_bytes(i.data.frozen as nat, 16) + le_bytes(i.data.flags as nat, 16)
}

proof fn lemma_le_value_bound(b: Seq<u8>)
    ensures
        le_value(b) < pow256(b.len()),
    decreases b.len(),
{
    if b.len() > 0 {
        let r = b.drop_first();
        lemma_le_value_bound(r);
        let x = le_value(r);
        let p = pow256(r.len());
        let b0 = b[0] as nat;
        assert(b0 + 256 * x < 256 * p) by (nonlinear_arith)
            requires
                b0 < 256,
                x < p,
        ;
    }
}

proof fn lemma_pow256_facts()
    ensures
        pow256(4) == 0x1_0000_0000,
        pow256(16) == 0x1_0000_0000_0000_0000_0000_0000_0000_0000,
{
    reveal_with_fuel(pow256, 17);
}

proof fn lemma_le_round_trip(b: Seq<u8>)
    ensures
        le_bytes(le_value(b), b.len()) == b,
    decreases b.len(),
{
    if b.len() > 0 {
        let r = b.drop_first();
        lemma_le_round_trip(r);
        let v = le_value(b);
        vstd::arithmetic::div_mod::lemma_fundamental_div_mod_converse(
            v as int,
            256,
            le_value(r) as int,
            b[0] as int,
        );
        assert(le_bytes(v, b.len()) =~= b);
    }
}

/// Reads the `n`-byte little-endian integer that starts at `at`.
fn read_le(b: &[u8], at: usize, n: usize) -> (r: u128)
    requires
        n <= 16,
        at + n <= b@.len(),
    ensures
        r as nat == field_at(b@, at as int, n as int),
{
    let len: usize = b.len();
    let mut acc: u128 = 0;
    let mut i: usize = n;
    while i > 0
        invariant
            i <= n <= 16,
            at + n <= b@.len() == len,
            acc as nat == field_at(b@, (at + i) as int, (n - i) as int),
        decreases i,
    {
        let ghost s = b@.subrange((at + i - 1) as int, (at + n) as int);
        assert(s.drop_first() =~= b@.subrange((at + i) as int, (at + n) as int));
        proof {
            lemma_le_value_bound(s);
            lemma_pow256_facts();
            assert(pow256(s.len()) <= pow256(16)) by {
                lemma_pow256_monotonic(s.len(), 16);
            }
            assert(le_value(s) == s[0] as nat + 256 * acc as nat);
            assert(s[0] == b@[at + i - 1]);
            assert(le_value(s) < 0x1_0000_0000_0000_0000_0000_0000_0000_0000);
        }
        let byte = b[at + i - 1];
        acc = acc * 256 + byte as u128;
        i = i - 1;
    }
    acc
}

proof fn lemma_pow256_monotonic(a: nat, c: nat)
    requires
        a <= c,
    ensures
        pow256(a) <= pow256(c),
    decreases c,
{
    if a < c {
        lemma_pow256_monotonic(a, (c - 1) as nat);
    }
}

/// Appends the `n` low-order little-endian bytes of `v`.
fn write_le(out: &mut Vec<u8>, v: u128, n: usize)
    ensures
        final(out)@ == old(out)@ + le_bytes(v as nat, n as nat),
{
    let mut x: u128 = v;
    let mut i: usize = 0;
    while i < n
        invariant
            i <= n,
            old(out)@ + le_bytes(v as nat, n as nat) == out@ + le_bytes(x as nat, (n - i) as nat),
        decreases n - i,
    {
        let ghost rest = le_bytes((x / 256) as nat, (n - i - 1) as nat);
        assert(le_bytes(x as nat, (n - i) as nat) == seq![(x % 256) as u8] + rest);
        out.push((x % 256) as u8);
        assert(out@ + rest =~= old(out)@ + le_bytes(v as nat, n as nat));
        x = x / 256;
        i = i + 1;
    }
    assert(out@ + le_bytes(x as nat, 0) =~= out@);
}

impl AccountInfo {
    /// Reads a record from the front of `input`. Bytes after the 80 that the
    /// record occupies are left unread.
    pub fn decode(input: &[u8]) -> (r: Result<AccountInfo, DecodeError>)
        ensures
            input@.len() < 80 <==> r is Err,
            r matches Ok(info) ==> info == decoded(input@),
    {
        if input.len() < ACCOUNT_INFO_LEN {
            return Err(DecodeError);
        }
        proof {
            lemma_pow256_facts();
            lemma_le_value_bound(input@.subrange(0, 4));
            lemma_le_value_bound(input@.subrange(4, 8));
            lemma_le_value_bound(input@.subrange(8, 12));
            lemma_le_value_bound(input@.subrange(12, 16));
        }
        let nonce = read_le(input, 0, 4) as u32;
        let consumers = read_le(input, 4, 4) as u32;
        let providers = read_le(input, 8, 4) as u32;
        let sufficients = read_le(input, 12, 4) as u32;
        let free = read_le(input, 16, 16);
        let reserved = read_le(input, 32, 16);
        let frozen = read_le(input, 48, 16);
        let flags = read_le(input, 64, 16);
        Ok(AccountInfo {
            nonce,
            consumers,
            providers,
            sufficients,
            data: AccountData { free, reserved, frozen, flags },
        })
    }

    /// Writes the record in its 80-byte wire layout.
    pub fn encode(&self) -> (r: Vec<u8>)
        ensures
            r@ == encoded(*self),
            r@.len() == 80,
    {
        let mut out: Vec<u8> = Vec::new();
        write_le(&mut out, self.nonce as u128, 4);
        write_le(&mut out, self.consumers as u128, 4);
        write_le(&mut out, self.providers as u128, 4);
        write_le(&mut out, self.sufficients as u128, 4);
        write_le(&mut out, self.data.free, 16);
        write_le(&mut out, self.data.reserved, 16);
        write_le(&mut out, self.data.frozen, 16);
        write_le(&mut out, self.data.flags, 16);
        assert(out@ =~= encoded(*self));
        proof {
            lemma_le_bytes_len(self.nonce as nat, 4);
            lemma_le_bytes_len(self.consumers as nat, 4);
            lemma_le_bytes_len(self.providers as nat, 4);
            lemma_le_bytes_len(self.sufficients as nat, 4);
            lemma_le_bytes_len(self.data.free as nat, 16);
            lemma_le_bytes_len(self.data.reserved as nat, 16);
            lemma_le_bytes_len(self.data.frozen as nat, 16);
            lemma_le_bytes_len(self.data.flags as nat, 16);
        }
        out
    }
}

proof fn lemma_le_bytes_len(v: nat, n: nat)
    ensures
        le_bytes(v, n).len() == n,
    decreases n,
{
    if n > 0 {
        lemma_le_bytes_len(v / 256, (n - 1) as nat);
    }
}

proof fn lemma_le_value_of_bytes(v: nat, n: nat)
    requires
        v < pow256(n),
    ensures
        le_value(le_bytes(v, n)) == v,
    decreases n,
{
    lemma_le_bytes_len(v, n);
    if n > 0 {
        let q = v / 256;
        let p = pow256((n - 1) as nat);
        vstd::arithmetic::div_mod::lemma_fundamental_div_mod(v as int, 256);
        assert(q < p) by (nonlinear_arith)
            requires
                v < 256 * p,
                q == v / 256,
        ;
        lemma_le_value_of_bytes(q, (n - 1) as nat);
        assert(le_bytes(v, n).drop_first() =~= le_bytes(q, (n - 1) as nat));
    }
}

proof fn lemma_segment(b: Seq<u8>, at: int, n: nat)
    requires
        0 <= at,
        at + n <= b.len(),
    ensures
        field_at(b, at, n as int) < pow256(n),
        le_bytes(field_at(b, at, n as int), n) == b.subrange(at, at + n),
{
    lemma_le_value_bound(b.subrange(at, at + n));
    lemma_le_round_trip(b.subrange(at, at + n));
}

/// Any 80 bytes decode to a record whose wire layout is exactly those bytes.
pub proof fn lemma_decode_then_encode(b: Seq<u8>)
    requires
        b.len() == 80,
    ensures
        encoded(decoded(b)) == b,
{
    lemma_pow256_facts();
    lemma_segment(b, 0, 4);
    lemma_segment(b, 4, 4);
    lemma_segment(b, 8, 4);
    lemma_segment(b, 12, 4);
    lemma_segment(b, 16, 16);
    lemma_segment(b, 32, 16);
    lemma_segment(b, 48, 16);
    lemma_segment(b, 64, 16);
    assert(encoded(decoded(b)) =~= b);
}

/// Encoding a record and decoding the bytes gives the record back.
pub proof fn lemma_encode_then_decode(i: AccountInfo)
    ensures
        encoded(i).len() == 80,
        decoded(encoded(i)) == i,
{
    let e = encoded(i);
    lemma_pow256_facts();
    lemma_le_bytes_len(i.nonce as nat, 4);
    lemma_le_bytes_len(i.consumers as nat, 4);
    lemma_le_bytes_len(i.providers as nat, 4);
    lemma_le_bytes_len(i.sufficients as nat, 4);
    lemma_le_bytes_len(i.data.free as nat, 16);
    lemma_le_bytes_len(i.data.reserved as nat, 16);
    lemma_le_bytes_len(i.data.frozen as nat, 16);
    lemma_le_bytes_len(i.data.flags as nat, 16);
    lemma_le_value_of_bytes(i.nonce as nat, 4);
    lemma_le_value_of_bytes(i.consumers as nat, 4);
    lemma_le_value_of_bytes(i.providers as nat, 4);
    lemma_le_value_of_bytes(i.sufficients as nat, 4);
    lemma_le_value_of_bytes(i.data.free as nat, 16);
    lemma_le_value_of_bytes(i.data.reserved as nat, 16);
    lemma_le_value_of_bytes(i.data.frozen as nat, 16);
    lemma_le_value_of_bytes(i.data.flags as nat, 16);
    assert(e.subrange(0, 4) =~= le_bytes(i.nonce as nat, 4));
    assert(e.subrange(4, 8) =~= le_bytes(i.consumers as nat, 4));
    assert(e.subrange(8, 12) =~= le_bytes(i.providers as nat, 4));
    assert(e.subrange(12, 16) =~= le_bytes(i.sufficients as nat, 4));
    assert(e.subrange(16, 32) =~= le_bytes(i.data.free as nat, 16));
    assert(e.subrange(32, 48) =~= le_bytes(i.data.reserved as nat, 16));
    assert(e.subrange(48, 64) =~= le_bytes(i.data.frozen as nat, 16));
    assert(e.subrange(64, 80) =~= le_bytes(i.data.flags as nat, 16));
}

} // verus!
