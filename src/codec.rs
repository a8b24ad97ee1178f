//! The canonical byte encoding that is signed and verified.
//!
//! Integers are little-endian (`usize` as 8 bytes, `i32` as 4 bytes in two's
//! complement); a string is its UTF-8 length as 8 bytes followed by its UTF-8
//! bytes; a byte string is its length as 8 bytes followed by the bytes; a flag
//! is one byte, 0 or 1; an absent value is the byte 0, a present one the byte
//! 1 followed by its encoding.
use crate::transactions::{
    SignedTransaction, SignedTransactionModel, Transaction, TransactionModel, TransactionResult,
    TransactionResultModel,
};
use vstd::prelude::*;
use vstd::utf8::encode_utf8;

verus! {

/// The `n` lowest bytes of `x`, least significant first.
pub open spec fn le_bytes(x: nat, n: nat) -> Seq<u8>
    decreases n,
{
    if n == 0 {
        Seq::empty()
    } else {
        seq![(x % 256) as u8] + le_bytes(x / 256, (n - 1) as nat)
    }
}

pub open spec fn bytes_field(b: Seq<u8>) -> Seq<u8> {
    le_bytes(b.len(), 8) + b
}

pub open spec fn string_field(s: Seq<char>) -> Seq<u8> {
    bytes_field(encode_utf8(s))
}

/// The two's complement bits of `a`, read as an unsigned number.
pub open spec fn amount_bits(a: i32) -> nat {
    if a >= 0 {
        a as nat
    } else {
        (a + 0x1_0000_0000) as nat
    }
}

pub open spec fn transaction_bytes(t: TransactionModel) -> Seq<u8> {
    string_field(t.from) + string_field(t.to) + le_bytes(amount_bits(t.amount), 4)
}

pub open spec fn signed_transaction_bytes(st: SignedTransactionModel) -> Seq<u8> {
    transaction_bytes(st.transaction) + le_bytes(st.sender_id as nat, 8) + bytes_field(
        st.signature,
    )
}

pub open spec fn result_bytes(r: TransactionResultModel) -> Seq<u8> {
    le_bytes(r.node_id as nat, 8) + seq![if r.success { 1u8 } else { 0u8 }] + match r.transaction {
        Some(st) => seq![1u8] + signed_transaction_bytes(st),
        None => seq![0u8],
    }
}

pub open spec fn pow256(n: nat) -> nat
    decreases n,
{
    if n == 0 {
        1
    } else {
        256 * pow256((n - 1) as nat)
    }
}

/// A string whose UTF-8 length fits the 8-byte length prefix, as that of any
/// `String` does.
pub open spec fn encodable(s: Seq<char>) -> bool {
    encode_utf8(s).len() < pow256(8)
}

proof fn lemma_le_bytes_len(x: nat, n: nat)
    ensures
        le_bytes(x, n).len() == n,
    decreases n,
{
    if n > 0 {
        lemma_le_bytes_len(x / 256, (n - 1) as nat);
    }
}

proof fn lemma_le_bytes_injective(x: nat, y: nat, n: nat)
    requires
        x < pow256(n),
        y < pow256(n),
        le_bytes(x, n) == le_bytes(y, n),
    ensures
        x == y,
    decreases n,
{
    if n > 0 {
        let m = (n - 1) as nat;
        let p = pow256(m);
        lemma_le_bytes_len(x / 256, m);
        lemma_le_bytes_len(y / 256, m);
        assert(le_bytes(x, n) == seq![(x % 256) as u8] + le_bytes(x / 256, m));
        assert(le_bytes(y, n) == seq![(y % 256) as u8] + le_bytes(y / 256, m));
        assert(le_bytes(x, n)[0] == (x % 256) as u8);
        assert(le_bytes(y, n)[0] == (y % 256) as u8);
        assert(x % 256 == y % 256);
        assert(le_bytes(x, n).subrange(1, n as int) =~= le_bytes(x / 256, m));
        assert(le_bytes(y, n).subrange(1, n as int) =~= le_bytes(y / 256, m));
        assert(x / 256 < p) by (nonlinear_arith)
            requires
                x < 256 * p,
        ;
        assert(y / 256 < p) by (nonlinear_arith)
            requires
                y < 256 * p,
        ;
        lemma_le_bytes_injective(x / 256, y / 256, m);
        assert(x == 256 * (x / 256) + x % 256);
        assert(y == 256 * (y / 256) + y % 256);
    }
}

proof fn lemma_string_field_prefix(s1: Seq<char>, r1: Seq<u8>, s2: Seq<char>, r2: Seq<u8>)
    requires
        encodable(s1),
        encodable(s2),
        string_field(s1) + r1 == string_field(s2) + r2,
    ensures
        s1 == s2,
        r1 == r2,
{
    let e1 = encode_utf8(s1);
    let e2 = encode_utf8(s2);
    let x = string_field(s1) + r1;
    lemma_le_bytes_len(e1.len(), 8);
    lemma_le_bytes_len(e2.len(), 8);
    assert(x.subrange(0, 8) =~= le_bytes(e1.len(), 8));
    assert((string_field(s2) + r2).subrange(0, 8) =~= le_bytes(e2.len(), 8));
    lemma_le_bytes_injective(e1.len(), e2.len(), 8);
    let n = e1.len() as int;
    assert(x.subrange(8, 8 + n) =~= e1);
    assert((string_field(s2) + r2).subrange(8, 8 + n) =~= e2);
    assert(x.subrange(8 + n, x.len() as int) =~= r1);
    assert((string_field(s2) + r2).subrange(8 + n, x.len() as int) =~= r2);
    vstd::utf8::encode_utf8_decode_utf8(s1);
    vstd::utf8::encode_utf8_decode_utf8(s2);
}

/// Different transactions have different canonical bytes, so a signature
/// over the bytes of one transaction covers no other.
pub proof fn lemma_transaction_bytes_injective(a: TransactionModel, b: TransactionModel)
    requires
        encodable(a.from),
        encodable(a.to),
        encodable(b.from),
        encodable(b.to),
        transaction_bytes(a) == transaction_bytes(b),
    ensures
        a == b,
{
    let ta = le_bytes(amount_bits(a.amount), 4);
    let tb = le_bytes(amount_bits(b.amount), 4);
    assert(transaction_bytes(a) =~= string_field(a.from) + (string_field(a.to) + ta));
    assert(transaction_bytes(b) =~= string_field(b.from) + (string_field(b.to) + tb));
    lemma_string_field_prefix(a.from, string_field(a.to) + ta, b.from, string_field(b.to) + tb);
    lemma_string_field_prefix(a.to, ta, b.to, tb);
    reveal_with_fuel(pow256, 5);
    assert(pow256(4) == 0x1_0000_0000);
    lemma_le_bytes_injective(amount_bits(a.amount), amount_bits(b.amount), 4);
}

fn push_le(out: &mut Vec<u8>, x: u64, n: usize)
    ensures
        final(out)@ == old(out)@ + le_bytes(x as nat, n as nat),
    decreases n,
{
    if n > 0 {
        out.push((x % 256) as u8);
        push_le(out, x / 256, n - 1);
        assert(old(out)@ + seq![(x % 256) as u8] + le_bytes((x / 256) as nat, (n - 1) as nat)
            =~= old(out)@ + le_bytes(x as nat, n as nat));
    }
}

fn push_bytes(out: &mut Vec<u8>, b: &[u8])
    ensures
        final(out)@ == old(out)@ + bytes_field(b@),
{
    push_le(out, b.len() as u64, 8);
    let ghost start = out@;
    let mut i: usize = 0;
    while i < b.len()
        invariant
            i <= b@.len(),
            out@ == start + b@.subrange(0, i as int),
        decreases b@.len() - i,
    {
        out.push(b[i]);
        i = i + 1;
        assert(out@ =~= start + b@.subrange(0, i as int));
    }
    assert(b@.subrange(0, b@.len() as int) =~= b@);
    assert(start + b@ =~= old(out)@ + bytes_field(b@));
}

fn push_string(out: &mut Vec<u8>, s: &String)
    ensures
        final(out)@ == old(out)@ + string_field(s@),
{
    let b = s.as_str().as_bytes();
    push_bytes(out, b);
}

fn push_transaction(out: &mut Vec<u8>, t: &Transaction)
    ensures
        final(out)@ == old(out)@ + transaction_bytes(t@),
{
    let ghost start = out@;
    push_string(out, &t.from);
    push_string(out, &t.to);
    let bits: u32 = if t.amount >= 0 {
        t.amount as u32
    } else {
        (t.amount as i64 + 0x1_0000_0000) as u32
    };
    push_le(out, bits as u64, 4);
    assert(out@ =~= start + transaction_bytes(t@));
}

/// The canonical bytes of a transaction: what its sender signs.
pub fn encode_transaction(t: &Transaction) -> (r: Vec<u8>)
    ensures
        r@ == transaction_bytes(t@),
{
    let mut out: Vec<u8> = Vec::new();
    push_transaction(&mut out, t);
    assert(out@ =~= transaction_bytes(t@));
    out
}

/// The canonical bytes of a transaction result: what its reporting node signs.
pub fn encode_result(r: &TransactionResult) -> (out: Vec<u8>)
    ensures
        out@ == result_bytes(r@),
{
    let mut out: Vec<u8> = Vec::new();
    push_le(&mut out, r.node_id as u64, 8);
    out.push(if r.success { 1u8 } else { 0u8 });
    match &r.transaction {
        Some(st) => {
            out.push(1u8);
            push_transaction(&mut out, &st.transaction);
            push_le(&mut out, st.sender_id as u64, 8);
            push_bytes(&mut out, st.signature.as_slice());
        },
        None => {
            out.push(0u8);
        },
    }
    assert(out@ =~= result_bytes(r@));
    out
}

} // verus!
