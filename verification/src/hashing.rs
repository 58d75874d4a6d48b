use vstd::prelude::*;
use vstd::utf8::encode_utf8;
use sha2::Digest;

verus! {

/// The SHA-256 digest of a byte sequence. The digest itself is named rather
/// than written out; the trusted wrapper below ties it to the sha2 crate.
pub uninterp spec fn sha256_of(input: Seq<u8>) -> Seq<u8>;

/// The decimal digits (ASCII) of a natural number, most significant first.
pub open spec fn dec_digits(n: nat) -> Seq<u8>
    decreases n,
{
    if n < 10 {
        seq![(48 + n) as u8]
    } else {
        dec_digits(n / 10).push((48 + n % 10) as u8)
    }
}

/// The decimal rendering (ASCII) of a signed number, with a leading minus
/// sign when negative.
pub open spec fn dec_i64(v: i64) -> Seq<u8> {
    if v < 0 {
        seq![45u8] + dec_digits((-(v as int)) as nat)
    } else {
        dec_digits(v as nat)
    }
}

/// The canonical preimage of a commitment:
/// `variant ":" x ":" y ":" secret`, all in bytes.
pub open spec fn preimage_bytes(variant: u8, x: i64, y: i64, secret: Seq<u8>) -> Seq<u8> {
    dec_digits(variant as nat) + seq![58u8] + dec_i64(x) + seq![58u8] + dec_i64(y) + seq![58u8]
        + secret
}

/// The lowercase hexadecimal digit (ASCII) for a value below 16.
pub open spec fn hex_digit(n: u8) -> u8 {
    if n < 10 {
        (48 + n) as u8
    } else {
        (87 + n) as u8
    }
}

/// The lowercase hexadecimal rendering of a byte sequence, two digits per
/// byte.
pub open spec fn hex_bytes(bs: Seq<u8>) -> Seq<u8> {
    Seq::new(
        2 * bs.len(),
        |i: int|
            if i % 2 == 0 {
                hex_digit(bs[i / 2] / 16)
            } else {
                hex_digit(bs[i / 2] % 16)
            },
    )
}

/// The published form of a commitment: the lowercase hex rendering of the
/// SHA-256 digest of the canonical preimage.
pub open spec fn commitment_bytes(variant: u8, x: i64, y: i64, secret: Seq<char>) -> Seq<u8> {
    hex_bytes(sha256_of(preimage_bytes(variant, x, y, encode_utf8(secret))))
}

/// Relies on sha2::Sha256 (via its Digest trait): the returned vector is the
/// SHA-256 digest of exactly the input bytes, 32 bytes long, and depends on
/// those bytes alone.
#[verifier::external_body]
fn sha256_bytes(input: &Vec<u8>) -> (r: Vec<u8>)
    ensures
        r@ == sha256_of(input@),
        r@.len() == 32,
{
    let mut hasher = sha2::Sha256::new();
    hasher.update(input.as_slice());
    hasher.finalize().as_slice().to_vec()
}

/// Appends the decimal digits of `n` to `buf`.
fn push_dec_u64(buf: &mut Vec<u8>, n: u64)
    ensures
        final(buf)@ == old(buf)@ + dec_digits(n as nat),
    decreases n,
{
    if n >= 10 {
        push_dec_u64(buf, n / 10);
        let d: u8 = (n % 10) as u8;
        buf.push(48 + d);
        proof {
            assert(dec_digits(n as nat) == dec_digits(n as nat / 10).push(
                (48 + n as nat % 10) as u8,
            ));
            assert(n as nat / 10 == (n / 10) as nat);
            assert((48 + n as nat % 10) as u8 == 48 + d);
            assert(final(buf)@ =~= old(buf)@ + dec_digits(n as nat));
        }
    } else {
        let d: u8 = n as u8;
        buf.push(48 + d);
        proof {
            assert(dec_digits(n as nat) =~= seq![(48 + n as nat) as u8]);
            assert(final(buf)@ =~= old(buf)@ + dec_digits(n as nat));
        }
    }
}

/// Appends the decimal rendering of `v` to `buf`, sign included.
fn push_dec_i64(buf: &mut Vec<u8>, v: i64)
    ensures
        final(buf)@ == old(buf)@ + dec_i64(v),
{
    if v < 0 {
        buf.push(45);
        let m: u64 = (-(v as i128)) as u64;
        proof {
            assert(m as nat == (-(v as int)) as nat);
        }
        push_dec_u64(buf, m);
        proof {
            assert(final(buf)@ =~= old(buf)@ + dec_i64(v));
        }
    } else {
        push_dec_u64(buf, v as u64);
    }
}

/// Builds the canonical preimage bytes for a reveal attempt.
fn build_preimage(variant: u8, x: i64, y: i64, secret: &str) -> (r: Vec<u8>)
    ensures
        r@ == preimage_bytes(variant, x, y, encode_utf8(secret@)),
{
    let mut buf: Vec<u8> = Vec::new();
    push_dec_u64(&mut buf, variant as u64);
    buf.push(58);
    push_dec_i64(&mut buf, x);
    buf.push(58);
    push_dec_i64(&mut buf, y);
    buf.push(58);
    let sb: &[u8] = secret.as_bytes();
    let mut i: usize = 0;
    while i < sb.len()
        invariant
            i <= sb.len(),
            sb@ == encode_utf8(secret@),
            buf@ == preimage_bytes(variant, x, y, Seq::<u8>::empty()) + sb@.subrange(0, i as int),
        decreases sb.len() - i,
    {
        buf.push(sb[i]);
        i += 1;
        proof {
            assert(sb@.subrange(0, i as int) =~= sb@.subrange(0, i - 1) + seq![sb@[i - 1]]);
        }
    }
    proof {
        assert(sb@.subrange(0, sb@.len() as int) =~= sb@);
        assert(buf@ =~= preimage_bytes(variant, x, y, encode_utf8(secret@)));
    }
    buf
}

/// The hexadecimal digit of a value below 16.
fn hex_digit_exec(n: u8) -> (r: u8)
    requires
        n < 16,
    ensures
        r == hex_digit(n),
{
    if n < 10 {
        48 + n
    } else {
        87 + n
    }
}

/// The lowercase hexadecimal rendering of a byte vector.
fn hex_of(bytes: &Vec<u8>) -> (r: Vec<u8>)
    ensures
        r@ == hex_bytes(bytes@),
{
    let mut out: Vec<u8> = Vec::new();
    let mut i: usize = 0;
    while i < bytes.len()
        invariant
            i <= bytes.len(),
            out@ == hex_bytes(bytes@.subrange(0, i as int)),
        decreases bytes.len() - i,
    {
        let b = bytes[i];
        out.push(hex_digit_exec(b / 16));
        out.push(hex_digit_exec(b % 16));
        i += 1;
        proof {
            assert(out@ =~= hex_bytes(bytes@.subrange(0, i as int)));
        }
    }
    proof {
        assert(bytes@.subrange(0, bytes@.len() as int) =~= bytes@);
    }
    out
}

/// Recomputes the published form of a commitment from a reveal attempt.
pub fn compute_commitment(variant: u8, x: i64, y: i64, secret: &str) -> (r: Vec<u8>)
    ensures
        r@ == commitment_bytes(variant, x, y, secret@),
{
    let p = build_preimage(variant, x, y, secret);
    let d = sha256_bytes(&p);
    hex_of(&d)
}

/// Compares a byte vector with the UTF-8 bytes of a string slice.
pub fn bytes_eq_str(b: &Vec<u8>, s: &str) -> (r: bool)
    ensures
        r == (b@ == encode_utf8(s@)),
{
    let sb: &[u8] = s.as_bytes();
    if b.len() != sb.len() {
        proof {
            assert(b@ != encode_utf8(s@));
        }
        return false;
    }
    let mut i: usize = 0;
    while i < sb.len()
        invariant
            i <= sb.len(),
            b@.len() == sb@.len(),
            sb@ == encode_utf8(s@),
            forall|j: int| 0 <= j < i ==> b@[j] == sb@[j],
        decreases sb.len() - i,
    {
        if b[i] != sb[i] {
            return false;
        }
        i += 1;
    }
    proof {
        assert(b@ =~= sb@);
    }
    true
}

} // verus!
