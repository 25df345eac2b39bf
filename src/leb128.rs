use vstd::prelude::*;

verus! {

/// Why a variable-length integer could not be read.
#[derive(Debug, Clone, Copy, PartialEq, Eq, Structural)]
pub enum LebDecodeError {
    /// The number does not fit in 64 bits, or spans more than ten bytes.
    Overflow,
    /// The input ends before the last byte of the number.
    Invalid,
}

/// Longest encoding of a 64-bit number, in bytes.
pub const MAX_LEB_LEN: usize = 10;

/// `128` to the power `n`.
pub open spec fn pow128(n: nat) -> nat
    decreases n,
{
    if n == 0 {
        1
    } else {
        128 * pow128((n - 1) as nat)
    }
}

/// Encoding of `n`: seven bits per byte, least significant first, the high bit set on every
/// byte but the last.
pub open spec fn leb_encode(n: nat) -> Seq<u8>
    decreases n,
{
    if n < 128 {
        seq![n as u8]
    } else {
        seq![(n % 128 + 128) as u8] + leb_encode(n / 128)
    }
}

/// Number that the low seven bits of the bytes of `s` stand for, least significant first.
pub open spec fn leb_value(s: Seq<u8>) -> nat
    decreases s.len(),
{
    if s.len() == 0 {
        0
    } else {
        (s[0] % 128) as nat + 128 * leb_value(s.drop_first())
    }
}

/// The byte at `k` is the first of `s` whose high bit is clear.
pub open spec fn is_leb_end(s: Seq<u8>, k: int) -> bool {
    0 <= k < s.len() && s[k] < 128 && forall|i: int| 0 <= i < k ==> s[i] >= 128
}

/// What reading a number at the start of `s` gives: the number and how many bytes it takes,
/// or why there is none.
pub open spec fn leb_decode_spec(s: Seq<u8>) -> Result<(u64, nat), LebDecodeError> {
    if exists|k: int| 0 <= k < MAX_LEB_LEN && is_leb_end(s, k) {
        let k = choose|k: int| 0 <= k < MAX_LEB_LEN && is_leb_end(s, k);
        let v = leb_value(s.take(k + 1));
        if v <= u64::MAX {
            Ok((v as u64, (k + 1) as nat))
        } else {
            Err(LebDecodeError::Overflow)
        }
    } else if s.len() >= MAX_LEB_LEN {
        Err(LebDecodeError::Overflow)
    } else {
        Err(LebDecodeError::Invalid)
    }
}

proof fn lemma_leb_end_unique(s: Seq<u8>, a: int, b: int)
    requires
        is_leb_end(s, a),
        is_leb_end(s, b),
    ensures
        a == b,
{
    if a < b {
        assert(s[a] >= 128);
    } else if b < a {
        assert(s[b] >= 128);
    }
}

proof fn lemma_leb_value_push(a: Seq<u8>, x: u8)
    ensures
        leb_value(a.push(x)) == leb_value(a) + (x % 128) as nat * pow128(a.len()),
    decreases a.len(),
{
    if a.len() == 0 {
        assert(a.push(x).drop_first() =~= Seq::<u8>::empty());
        assert(leb_value(Seq::<u8>::empty()) == 0);
        assert(pow128(0) == 1);
        assert(a.push(x)[0] == x);
    } else {
        let t = a.drop_first();
        assert(a.push(x).drop_first() =~= t.push(x));
        assert(a.push(x)[0] == a[0]);
        lemma_leb_value_push(t, x);
        let p = pow128(t.len());
        assert(pow128(a.len()) == 128 * p);
        let y = (x % 128) as nat;
        assert(128 * (leb_value(t) + y * p) == 128 * leb_value(t) + y * (128 * p))
            by (nonlinear_arith);
    }
}

proof fn lemma_pow128_mono(i: nat, j: nat)
    requires
        i <= j,
    ensures
        pow128(i) <= pow128(j),
        pow128(i) >= 1,
    decreases j,
{
    if j > 0 {
        lemma_pow128_mono(0, (j - 1) as nat);
        if i < j {
            lemma_pow128_mono(i, (j - 1) as nat);
        }
    }
}

proof fn lemma_pow128_ten()
    ensures
        pow128(10) == 1180591620717411303424,
        pow128(9) == 9223372036854775808,
{
    reveal_with_fuel(pow128, 11);
}

/// The encoding ends with its only byte whose high bit is clear, and stands for `n`.
pub proof fn lemma_leb_encode_shape(n: nat)
    ensures
        leb_encode(n).len() >= 1,
        is_leb_end(leb_encode(n), leb_encode(n).len() - 1),
        leb_value(leb_encode(n)) == n,
    decreases n,
{
    let e = leb_encode(n);
    if n < 128 {
        assert(e.drop_first() =~= Seq::<u8>::empty());
        assert(leb_value(Seq::<u8>::empty()) == 0);
    } else {
        lemma_leb_encode_shape(n / 128);
        let t = leb_encode(n / 128);
        assert(e.drop_first() =~= t);
        assert forall|i: int| 0 <= i < e.len() - 1 implies e[i] >= 128 by {
            if i > 0 {
                assert(e[i] == t[i - 1]);
            }
        }
    }
}

/// Numbers below `128` to the power `k` take at most `k` bytes.
proof fn lemma_leb_encode_len(n: nat, k: nat)
    requires
        n < pow128(k),
        k >= 1,
    ensures
        leb_encode(n).len() <= k,
    decreases n,
{
    if n >= 128 {
        if k <= 1 {
            assert(pow128(0) == 1);
            assert(pow128(1) == 128 * pow128(0));
        } else {
            let p = pow128((k - 1) as nat);
            assert(pow128(k) == 128 * p);
            assert(leb_encode(n).len() == 1 + leb_encode(n / 128).len());
            assert(n / 128 < p) by (nonlinear_arith)
                requires n < 128 * p, n >= 128;
            lemma_leb_encode_len(n / 128, (k - 1) as nat);
        }
    }
}

/// Reading back the encoding of a number, followed by anything, gives that number and the
/// length of its encoding.
pub proof fn lemma_leb_round_trip(n: u64, rest: Seq<u8>)
    ensures
        leb_encode(n as nat).len() <= MAX_LEB_LEN,
        leb_decode_spec(leb_encode(n as nat) + rest) == Ok::<(u64, nat), LebDecodeError>(
            (n, leb_encode(n as nat).len()),
        ),
{
    let e = leb_encode(n as nat);
    let s = e + rest;
    lemma_leb_encode_shape(n as nat);
    lemma_pow128_ten();
    lemma_leb_encode_len(n as nat, 10);
    let k = e.len() - 1;
    assert(is_leb_end(s, k)) by {
        assert forall|i: int| 0 <= i < k implies s[i] >= 128 by {
            assert(s[i] == e[i]);
        }
    }
    assert(s.take(k + 1) =~= e);
    let c = choose|c: int| 0 <= c < MAX_LEB_LEN && is_leb_end(s, c);
    lemma_leb_end_unique(s, c, k);
}

/// Encodes `n` as a variable-length integer.
pub fn leb_encode_u64(n: u64) -> (r: Vec<u8>)
    ensures
        r@ == leb_encode(n as nat),
{
    let mut out: Vec<u8> = Vec::new();
    let mut v: u64 = n;
    while v >= 128
        invariant
            out@ + leb_encode(v as nat) == leb_encode(n as nat),
        decreases v,
    {
        let byte: u8 = (v % 128 + 128) as u8;
        proof {
            assert(leb_encode(v as nat) == seq![byte] + leb_encode((v / 128) as nat));
            assert(out@.push(byte) + leb_encode((v / 128) as nat) =~= out@ + (seq![byte]
                + leb_encode((v / 128) as nat)));
        }
        out.push(byte);
        v = v / 128;
    }
    proof {
        assert(out@.push(v as u8) =~= out@ + leb_encode(v as nat));
    }
    out.push(v as u8);
    out
}

/// Reads a variable-length integer at the start of `bytes`. Returns the number and how many
/// bytes it takes.
pub fn leb_decode(bytes: &[u8]) -> (r: Result<(u64, usize), LebDecodeError>)
    ensures
        match r {
            Ok((v, n)) => leb_decode_spec(bytes@) == Ok::<(u64, nat), LebDecodeError>(
                (v, n as nat),
            ),
            Err(e) => leb_decode_spec(bytes@) == Err::<(u64, nat), LebDecodeError>(e),
        },
{
    let mut value: u128 = 0;
    let mut mult: u128 = 1;
    let mut i: usize = 0;
    proof {
        lemma_pow128_ten();
    }
    while i < bytes.len() && i < MAX_LEB_LEN
        invariant
            i <= MAX_LEB_LEN,
            i <= bytes@.len(),
            mult == pow128(i as nat),
            value == leb_value(bytes@.take(i as int)),
            value < mult,
            forall|j: int| 0 <= j < i ==> bytes@[j] >= 128,
            pow128(10) == 1180591620717411303424,
        decreases MAX_LEB_LEN - i,
    {
        let b = bytes[i];
        proof {
            lemma_pow128_mono(i as nat, 9);
            assert(bytes@.take(i + 1) =~= bytes@.take(i as int).push(b));
            lemma_leb_value_push(bytes@.take(i as int), b);
            assert((b % 128) as nat * mult + value < 128 * mult) by (nonlinear_arith)
                requires value < mult, (b % 128) < 128;
        }
        value = value + (b % 128) as u128 * mult;
        if b < 128 {
            proof {
                assert(is_leb_end(bytes@, i as int));
                let c = choose|c: int| 0 <= c < MAX_LEB_LEN && is_leb_end(bytes@, c);
                lemma_leb_end_unique(bytes@, c, i as int);
            }
            if value <= u64::MAX as u128 {
                return Ok((value as u64, i + 1));
            } else {
                return Err(LebDecodeError::Overflow);
            }
        }
        mult = mult * 128;
        i = i + 1;
    }
    proof {
        assert forall|k: int| 0 <= k < MAX_LEB_LEN implies !is_leb_end(bytes@, k) by {
            if k < i {
                assert(bytes@[k] >= 128);
            }
        }
    }
    if i >= MAX_LEB_LEN {
        Err(LebDecodeError::Overflow)
    } else {
        Err(LebDecodeError::Invalid)
    }
}

} // verus!
