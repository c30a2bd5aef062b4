//! Recursive Length Prefix (RLP) primitives: minimal big-endian integers,
//! string and list headers, and verified append routines that build an
//! encoding inside a byte vector.

use vstd::prelude::*;

verus! {

/// Minimal big-endian byte representation of `n`; zero is the empty string.
pub open spec fn be_bytes_of(n: nat) -> Seq<u8>
    decreases n,
{
    if n == 0 {
        Seq::empty()
    } else {
        be_bytes_of(n / 256).push((n % 256) as u8)
    }
}

/// The unsigned big-endian value of a byte string.
pub open spec fn be_value(s: Seq<u8>) -> nat
    decreases s.len(),
{
    if s.len() == 0 {
        0
    } else {
        be_value(s.drop_last()) * 256 + (s.last() as nat)
    }
}

/// `s` with its leading zero bytes removed.
pub open spec fn trimmed(s: Seq<u8>) -> Seq<u8>
    decreases s.len(),
{
    if s.len() == 0 || s[0] != 0 {
        s
    } else {
        trimmed(s.drop_first())
    }
}

/// Header that precedes a string payload of `len` bytes (when the payload is
/// not a single byte below 0x80).
pub open spec fn str_header(len: nat) -> Seq<u8> {
    if len < 56 {
        seq![(0x80 + len) as u8]
    } else {
        seq![(0xb7 + be_bytes_of(len).len()) as u8] + be_bytes_of(len)
    }
}

/// RLP encoding of a byte-string payload.
pub open spec fn rlp_str(p: Seq<u8>) -> Seq<u8> {
    if p.len() == 1 && p[0] < 0x80 {
        p
    } else {
        str_header(p.len()) + p
    }
}

/// Header that precedes a list whose concatenated item encodings take
/// `len` bytes.
pub open spec fn list_header(len: nat) -> Seq<u8> {
    if len < 56 {
        seq![(0xc0 + len) as u8]
    } else {
        seq![(0xf7 + be_bytes_of(len).len()) as u8] + be_bytes_of(len)
    }
}

/// RLP encoding of a list given the concatenation of its item encodings.
pub open spec fn rlp_list(payload: Seq<u8>) -> Seq<u8> {
    list_header(payload.len()) + payload
}

/// RLP encoding of an unsigned integer: its minimal big-endian bytes as a
/// string.
pub open spec fn rlp_uint(n: nat) -> Seq<u8> {
    rlp_str(be_bytes_of(n))
}

/// 256 to the power `k`.
pub open spec fn pow256(k: nat) -> nat
    decreases k,
{
    if k == 0 {
        1
    } else {
        256 * pow256((k - 1) as nat)
    }
}

/// An integer below `pow256(k)` needs at most `k` big-endian bytes.
pub proof fn lemma_be_bytes_len(n: nat, k: nat)
    requires
        n < pow256(k),
    ensures
        be_bytes_of(n).len() <= k,
    decreases k,
{
    if n == 0 {
    } else {
        assert(k > 0);
        assert(n / 256 < pow256((k - 1) as nat)) by (nonlinear_arith)
            requires
                n < 256 * pow256((k - 1) as nat),
        ;
        lemma_be_bytes_len(n / 256, (k - 1) as nat);
    }
}

/// Reading the minimal big-endian bytes of `n` back as a value gives `n`.
pub proof fn lemma_be_value_of_be_bytes(n: nat)
    ensures
        be_value(be_bytes_of(n)) == n,
    decreases n,
{
    if n == 0 {
    } else {
        lemma_be_value_of_be_bytes(n / 256);
        let s = be_bytes_of(n / 256);
        assert(be_bytes_of(n) == s.push((n % 256) as u8));
        assert(s.push((n % 256) as u8).drop_last() =~= s);
        assert(be_value(be_bytes_of(n)) == be_value(s) * 256 + (n % 256));
        assert((n / 256) * 256 + (n % 256) == n) by (nonlinear_arith);
    }
}

/// A byte string with a nonzero first byte has a positive value.
pub proof fn lemma_be_value_pos(s: Seq<u8>)
    requires
        s.len() > 0,
        s[0] != 0,
    ensures
        be_value(s) > 0,
    decreases s.len(),
{
    if s.len() == 1 {
        assert(s.drop_last().len() == 0);
    } else {
        assert(s.drop_last()[0] == s[0]);
        lemma_be_value_pos(s.drop_last());
        assert(be_value(s.drop_last()) * 256 >= 256) by (nonlinear_arith)
            requires
                be_value(s.drop_last()) >= 1,
        ;
    }
}

/// The minimal big-endian bytes of the value of a string with no leading
/// zero are the string itself.
pub proof fn lemma_be_bytes_of_be_value(s: Seq<u8>)
    requires
        s.len() == 0 || s[0] != 0,
    ensures
        be_bytes_of(be_value(s)) == s,
    decreases s.len(),
{
    if s.len() == 0 {
    } else {
        let init = s.drop_last();
        let last = s.last();
        let v = be_value(s);
        assert(v == be_value(init) * 256 + last);
        if init.len() > 0 {
            assert(init[0] == s[0]);
        }
        lemma_be_bytes_of_be_value(init);
        if init.len() > 0 {
            lemma_be_value_pos(init);
        }
        assert(v / 256 == be_value(init) && v % 256 == last) by (nonlinear_arith)
            requires
                v == be_value(init) * 256 + last,
                0 <= last < 256,
        ;
        if v == 0 {
            assert(be_value(init) == 0 && last == 0);
            assert(init.len() == 0);
            assert(s.len() == 1 && s[0] == 0);
            assert(false);
        }
        assert(be_bytes_of(v) == be_bytes_of(be_value(init)).push(last as u8));
        assert(init.push(last as u8) =~= s);
    }
}

/// Dropping a leading zero byte does not change the value.
pub proof fn lemma_drop_leading_zero(s: Seq<u8>)
    requires
        s.len() > 0,
        s[0] == 0,
    ensures
        be_value(s.drop_first()) == be_value(s),
    decreases s.len(),
{
    if s.len() == 1 {
        assert(s.drop_last().len() == 0);
        assert(be_value(s) == be_value(s.drop_last()) * 256 + (s.last() as nat));
        assert(s.last() == s[0]);
    } else {
        let init = s.drop_last();
        assert(init[0] == s[0]);
        lemma_drop_leading_zero(init);
        assert(s.drop_first().drop_last() =~= init.drop_first());
        assert(s.drop_first().last() == s.last());
        assert(s.drop_first().len() > 0);
    }
}

/// Trimming leading zeros does not change the value.
pub proof fn lemma_trimmed_value(s: Seq<u8>)
    ensures
        be_value(trimmed(s)) == be_value(s),
    decreases s.len(),
{
    if s.len() == 0 || s[0] != 0 {
    } else {
        lemma_drop_leading_zero(s);
        lemma_trimmed_value(s.drop_first());
    }
}

/// The trimmed string has no leading zero.
pub proof fn lemma_trimmed_no_leading_zero(s: Seq<u8>)
    ensures
        trimmed(s).len() == 0 || trimmed(s)[0] != 0,
    decreases s.len(),
{
    if s.len() == 0 || s[0] != 0 {
    } else {
        lemma_trimmed_no_leading_zero(s.drop_first());
    }
}

/// The minimal big-endian bytes of a string's value are the string trimmed.
pub proof fn lemma_be_bytes_of_value(s: Seq<u8>)
    ensures
        be_bytes_of(be_value(s)) == trimmed(s),
{
    lemma_trimmed_value(s);
    lemma_trimmed_no_leading_zero(s);
    lemma_be_bytes_of_be_value(trimmed(s));
}

/// If the first `i` bytes of `s` are zero and byte `i` (if any) is not,
/// trimming yields the suffix from `i`.
pub proof fn lemma_trimmed_suffix(s: Seq<u8>, i: int)
    requires
        0 <= i <= s.len(),
        forall|j: int| 0 <= j < i ==> s[j] == 0,
        i == s.len() || s[i] != 0,
    ensures
        trimmed(s) == s.subrange(i, s.len() as int),
    decreases i,
{
    if i == 0 {
        assert(s.subrange(0, s.len() as int) =~= s);
        if s.len() > 0 && s[0] == 0 {
            assert(false);
        }
    } else {
        assert(s[0] == 0);
        assert(s.len() > 0);
        let t = s.drop_first();
        assert(forall|j: int| 0 <= j < i - 1 ==> t[j] == s[j + 1] && t[j] == 0);
        assert(i - 1 == t.len() || t[i - 1] != 0);
        lemma_trimmed_suffix(t, i - 1);
        assert(t.subrange(i - 1, t.len() as int) =~= s.subrange(i, s.len() as int));
    }
}

/// The big-endian bytes of `n`, as a vector.
pub fn u64_be_bytes(n: u64) -> (r: Vec<u8>)
    ensures
        r@ == be_bytes_of(n as nat),
{
    let mut m: u64 = n;
    let mut acc: Vec<u8> = Vec::new();
    proof {
        assert(be_bytes_of(n as nat) =~= be_bytes_of(n as nat) + acc@);
    }
    while m > 0
        invariant
            be_bytes_of(n as nat) == be_bytes_of(m as nat) + acc@,
        decreases m,
    {
        let ghost m0 = m as nat;
        let ghost acc0 = acc@;
        let b: u8 = (m % 256) as u8;
        acc.insert(0, b);
        m = m / 256;
        proof {
            assert(be_bytes_of(m0) == be_bytes_of(m0 / 256).push(b));
            assert(acc@ =~= seq![b] + acc0);
            assert(be_bytes_of(m0 / 256) + acc@ =~= be_bytes_of(m0 / 256).push(b) + acc0);
        }
    }
    proof {
        assert(be_bytes_of(n as nat) =~= acc@);
    }
    acc
}

/// The big-endian bytes of a length, as a vector.
pub fn len_be_bytes(n: usize) -> (r: Vec<u8>)
    ensures
        r@ == be_bytes_of(n as nat),
        r@.len() <= 8,
{
    let mut m: usize = n;
    let mut acc: Vec<u8> = Vec::new();
    proof {
        assert(be_bytes_of(n as nat) =~= be_bytes_of(n as nat) + acc@);
    }
    while m > 0
        invariant
            be_bytes_of(n as nat) == be_bytes_of(m as nat) + acc@,
        decreases m,
    {
        let ghost m0 = m as nat;
        let ghost acc0 = acc@;
        let b: u8 = (m % 256) as u8;
        acc.insert(0, b);
        m = m / 256;
        proof {
            assert(be_bytes_of(m0) == be_bytes_of(m0 / 256).push(b));
            assert(acc@ =~= seq![b] + acc0);
            assert(be_bytes_of(m0 / 256) + acc@ =~= be_bytes_of(m0 / 256).push(b) + acc0);
        }
    }
    proof {
        assert(be_bytes_of(n as nat) =~= acc@);
        reveal_with_fuel(pow256, 9);
        assert((n as nat) < pow256(8));
        lemma_be_bytes_len(n as nat, 8);
    }
    acc
}

/// Append every byte of `src` to `out`.
pub fn append_all(out: &mut Vec<u8>, src: &Vec<u8>)
    ensures
        final(out)@ == old(out)@ + src@,
{
    let ghost base = out@;
    let mut i: usize = 0;
    while i < src.len()
        invariant
            i <= src@.len(),
            out@ == base + src@.subrange(0, i as int),
        decreases src@.len() - i,
    {
        let ghost pre = out@;
        out.push(src[i]);
        proof {
            assert(pre.push(src@[i as int]) =~= base + src@.subrange(0, i + 1));
        }
        i = i + 1;
    }
    proof {
        assert(base + src@.subrange(0, src@.len() as int) =~= base + src@);
    }
}

/// Append the string header for a payload of `len` bytes.
fn append_str_header(out: &mut Vec<u8>, len: usize)
    ensures
        final(out)@ == old(out)@ + str_header(len as nat),
{
    if len < 56 {
        let ghost base = out@;
        out.push(0x80 + len as u8);
        proof {
            assert(base.push((0x80 + len as nat) as u8) =~= base + str_header(len as nat));
        }
    } else {
        let lb = len_be_bytes(len);
        let ghost base = out@;
        out.push(0xb7 + lb.len() as u8);
        append_all(out, &lb);
        proof {
            assert(base.push((0xb7 + be_bytes_of(len as nat).len()) as u8) + lb@ =~= base
                + str_header(len as nat));
        }
    }
}

/// Append the RLP encoding of the byte string `p`.
pub fn append_str(out: &mut Vec<u8>, p: &Vec<u8>)
    ensures
        final(out)@ == old(out)@ + rlp_str(p@),
{
    if p.len() == 1 && p[0] < 0x80 {
        let ghost base = out@;
        out.push(p[0]);
        proof {
            assert(base.push(p@[0]) =~= base + rlp_str(p@));
        }
    } else {
        let ghost base = out@;
        append_str_header(out, p.len());
        append_all(out, p);
        proof {
            assert(base + str_header(p@.len()) + p@ =~= base + rlp_str(p@));
        }
    }
}

/// Append the RLP encoding of the unsigned integer `n`.
pub fn append_uint(out: &mut Vec<u8>, n: u64)
    ensures
        final(out)@ == old(out)@ + rlp_uint(n as nat),
{
    let bytes = u64_be_bytes(n);
    append_str(out, &bytes);
}

/// Append the RLP encoding of the 256-bit unsigned integer held big-endian
/// in `q`.
pub fn append_uint_be32(out: &mut Vec<u8>, q: &[u8; 32])
    ensures
        final(out)@ == old(out)@ + rlp_uint(be_value(q@)),
{
    let mut i: usize = 0;
    while i < 32 && q[i] == 0
        invariant
            i <= 32,
            q@.len() == 32,
            forall|j: int| 0 <= j < i ==> q@[j] == 0,
        decreases 32 - i,
    {
        i = i + 1;
    }
    let mut tb: Vec<u8> = Vec::new();
    let mut j: usize = i;
    while j < 32
        invariant
            i <= j <= 32,
            q@.len() == 32,
            tb@ == q@.subrange(i as int, j as int),
        decreases 32 - j,
    {
        let ghost pre = tb@;
        tb.push(q[j]);
        proof {
            assert(pre.push(q@[j as int]) =~= q@.subrange(i as int, j + 1));
        }
        j = j + 1;
    }
    proof {
        lemma_trimmed_suffix(q@, i as int);
        lemma_be_bytes_of_value(q@);
        assert(tb@ == trimmed(q@));
        assert(rlp_str(tb@) == rlp_uint(be_value(q@)));
    }
    append_str(out, &tb);
}

/// Wrap an already-encoded item concatenation in an RLP list header.
pub fn wrap_list(payload: Vec<u8>) -> (r: Vec<u8>)
    ensures
        r@ == rlp_list(payload@),
{
    let mut out: Vec<u8> = Vec::new();
    if payload.len() < 56 {
        out.push(0xc0 + payload.len() as u8);
        proof {
            assert(out@ =~= list_header(payload@.len()));
        }
    } else {
        let lb = len_be_bytes(payload.len());
        out.push(0xf7 + lb.len() as u8);
        append_all(&mut out, &lb);
        proof {
            assert(out@ =~= list_header(payload@.len()));
        }
    }
    append_all(&mut out, &payload);
    proof {
        assert(out@ =~= rlp_list(payload@));
    }
    out
}

} // verus!
