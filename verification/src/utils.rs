//! The challenge hash of the login handshake: a hexadecimal SHA-1 digest
//! over the plaintext password and the server-issued nonce, so that the
//! plaintext password never crosses the wire.

use vstd::prelude::*;
use vstd::string::StrSliceExecFns;
use vstd::string::StringExecFns;
use vstd::utf8::encode_utf8;
use vstd::utf8::encode_scalar;
use sha1::Digest;

verus! {

/// The SHA-1 digest of a byte sequence. What the digest is on given bytes is
/// left unstated: the verified code treats it as an opaque function of its
/// input alone.
pub uninterp spec fn sha1_of(data: Seq<u8>) -> Seq<u8>;

/// Relies on `sha1::Sha1::digest`: the SHA-1 digest is 20 bytes long and a
/// function of the input bytes alone.
#[verifier::external_body]
fn sha1_digest(data: &Vec<u8>) -> (r: Vec<u8>)
    ensures
        r@ == sha1_of(data@),
        r@.len() == 20,
{
    sha1::Sha1::digest(data.as_slice()).to_vec()
}

/// The lower-case hexadecimal digit for a value below 16.
pub open spec fn hex_digit_char(d: u8) -> char
    recommends
        d < 16,
{
    if d == 0 {
        '0'
    } else if d == 1 {
        '1'
    } else if d == 2 {
        '2'
    } else if d == 3 {
        '3'
    } else if d == 4 {
        '4'
    } else if d == 5 {
        '5'
    } else if d == 6 {
        '6'
    } else if d == 7 {
        '7'
    } else if d == 8 {
        '8'
    } else if d == 9 {
        '9'
    } else if d == 10 {
        'a'
    } else if d == 11 {
        'b'
    } else if d == 12 {
        'c'
    } else if d == 13 {
        'd'
    } else if d == 14 {
        'e'
    } else {
        'f'
    }
}

/// The ASCII code of the lower-case hexadecimal digit for a value below 16.
pub open spec fn hex_digit_byte(d: u8) -> u8
    recommends
        d < 16,
{
    if d < 10 {
        (48 + d) as u8
    } else {
        (87 + d) as u8
    }
}

/// The lower-case hexadecimal rendering of a byte sequence, two digits per
/// byte, as characters.
pub open spec fn hex_chars(data: Seq<u8>) -> Seq<char>
    decreases data.len(),
{
    if data.len() == 0 {
        Seq::empty()
    } else {
        seq![hex_digit_char(data[0] / 16), hex_digit_char(data[0] % 16)] + hex_chars(
            data.drop_first(),
        )
    }
}

/// The same rendering as ASCII bytes.
pub open spec fn hex_bytes(data: Seq<u8>) -> Seq<u8>
    decreases data.len(),
{
    if data.len() == 0 {
        Seq::empty()
    } else {
        seq![hex_digit_byte(data[0] / 16), hex_digit_byte(data[0] % 16)] + hex_bytes(
            data.drop_first(),
        )
    }
}

proof fn lemma_mask_low(v: u32)
    by (bit_vector)
    requires
        v <= 0x7F,
    ensures
        v & 0x7F == v,
{
}

proof fn lemma_hex_digit_ascii(d: u8)
    requires
        d < 16,
    ensures
        (hex_digit_char(d) as u32) <= 0x7F,
        (hex_digit_char(d) as u32) as u8 == hex_digit_byte(d),
        vstd::utf8::leading_byte_width_1(hex_digit_char(d) as u32) == hex_digit_byte(d),
{
    lemma_mask_low(hex_digit_char(d) as u32);
}

/// The UTF-8 encoding of the hexadecimal characters is exactly the
/// hexadecimal ASCII bytes.
proof fn lemma_hex_chars_encode(data: Seq<u8>)
    ensures
        encode_utf8(hex_chars(data)) =~= hex_bytes(data),
    decreases data.len(),
{
    if data.len() > 0 {
        reveal_with_fuel(encode_utf8, 3);
        reveal_with_fuel(hex_chars, 2);
        lemma_hex_chars_encode(data.drop_first());
        let c1 = hex_digit_char(data[0] / 16);
        let c2 = hex_digit_char(data[0] % 16);
        let s = hex_chars(data);
        assert(data[0] / 16 < 16 && data[0] % 16 < 16);
        lemma_hex_digit_ascii(data[0] / 16);
        lemma_hex_digit_ascii(data[0] % 16);
        assert(s[0] == c1);
        assert(s.drop_first() =~= seq![c2] + hex_chars(data.drop_first()));
        assert(encode_scalar(c1 as u32) =~= seq![hex_digit_byte(data[0] / 16)]);
        let s2 = s.drop_first();
        assert(s2[0] == c2);
        assert(s2.drop_first() =~= hex_chars(data.drop_first()));
        assert(encode_scalar(c2 as u32) =~= seq![hex_digit_byte(data[0] % 16)]);
    }
}

pub(crate) fn hex_digit_str(d: u8) -> (r: &'static str)
    requires
        d < 16,
    ensures
        r@ =~= seq![hex_digit_char(d)],
{
    proof {
        reveal_strlit("0");
        reveal_strlit("1");
        reveal_strlit("2");
        reveal_strlit("3");
        reveal_strlit("4");
        reveal_strlit("5");
        reveal_strlit("6");
        reveal_strlit("7");
        reveal_strlit("8");
        reveal_strlit("9");
        reveal_strlit("a");
        reveal_strlit("b");
        reveal_strlit("c");
        reveal_strlit("d");
        reveal_strlit("e");
        reveal_strlit("f");
    }
    match d {
        0 => "0",
        1 => "1",
        2 => "2",
        3 => "3",
        4 => "4",
        5 => "5",
        6 => "6",
        7 => "7",
        8 => "8",
        9 => "9",
        10 => "a",
        11 => "b",
        12 => "c",
        13 => "d",
        14 => "e",
        _ => "f",
    }
}

proof fn lemma_hex_chars_snoc(s: Seq<u8>, b: u8)
    ensures
        hex_chars(s.push(b)) =~= hex_chars(s) + seq![
            hex_digit_char(b / 16),
            hex_digit_char(b % 16),
        ],
    decreases s.len(),
{
    if s.len() == 0 {
        reveal_with_fuel(hex_chars, 2);
        assert(s.push(b)[0] == b);
        assert(s.push(b).drop_first() =~= Seq::<u8>::empty());
        assert(hex_chars(s.push(b)) =~= seq![hex_digit_char(b / 16), hex_digit_char(b % 16)]);
        assert(hex_chars(s) =~= Seq::<char>::empty());
    } else {
        lemma_hex_chars_snoc(s.drop_first(), b);
        assert(s.push(b)[0] == s[0]);
        assert(s.push(b).drop_first() =~= s.drop_first().push(b));
        let h = seq![hex_digit_char(s[0] / 16), hex_digit_char(s[0] % 16)];
        let d = seq![hex_digit_char(b / 16), hex_digit_char(b % 16)];
        assert(hex_chars(s.push(b)) =~= h + hex_chars(s.drop_first().push(b)));
        assert(hex_chars(s) =~= h + hex_chars(s.drop_first()));
        assert(h + (hex_chars(s.drop_first()) + d) =~= (h + hex_chars(s.drop_first())) + d);
    }
}

/// Renders bytes as lower-case hexadecimal, two digits per byte.
pub fn hex_encode(data: &Vec<u8>) -> (r: String)
    ensures
        r@ == hex_chars(data@),
        r@.len() == 2 * data@.len(),
{
    let mut out = String::new();
    let mut i: usize = 0;
    proof {
        assert(data@.take(0) =~= Seq::<u8>::empty());
        lemma_hex_chars_len(data@);
    }
    while i < data.len()
        invariant
            i <= data@.len(),
            out@ =~= hex_chars(data@.take(i as int)),
        decreases data@.len() - i,
    {
        let b = data[i];
        out.append(hex_digit_str(b / 16));
        out.append(hex_digit_str(b % 16));
        proof {
            lemma_hex_chars_snoc(data@.take(i as int), b);
            assert(data@.take(i + 1) =~= data@.take(i as int).push(b));
        }
        i = i + 1;
    }
    proof {
        assert(data@.take(data@.len() as int) =~= data@);
    }
    out
}

proof fn lemma_hex_chars_len(data: Seq<u8>)
    ensures
        hex_chars(data).len() == 2 * data.len(),
    decreases data.len(),
{
    if data.len() > 0 {
        lemma_hex_chars_len(data.drop_first());
    }
}

/// The hexadecimal SHA-1 digest of a byte sequence: 40 lower-case
/// hexadecimal characters.
pub fn sha1_hex(data: &Vec<u8>) -> (r: String)
    ensures
        r@ == hex_chars(sha1_of(data@)),
        r@.len() == 40,
{
    let d = sha1_digest(data);
    let r = hex_encode(&d);
    proof {
        lemma_hex_chars_len(d@);
    }
    r
}

/// The computed login password: the hexadecimal SHA-1 digest of the nonce
/// followed by the hexadecimal SHA-1 digest of the plaintext password.
pub open spec fn login_hash(password: Seq<u8>, nonce: Seq<u8>) -> Seq<char> {
    hex_chars(sha1_of(nonce + hex_bytes(sha1_of(password))))
}

/// The computed login password is a deterministic function of the plaintext
/// password and the nonce: repeated logins with the same password and nonce
/// derive the same hash.
pub proof fn lemma_login_hash_deterministic(
    password1: Seq<u8>,
    nonce1: Seq<u8>,
    password2: Seq<u8>,
    nonce2: Seq<u8>,
)
    requires
        password1 == password2,
        nonce1 == nonce2,
    ensures
        login_hash(password1, nonce1) == login_hash(password2, nonce2),
{
}

fn push_bytes(dst: &mut Vec<u8>, src: &Vec<u8>)
    ensures
        final(dst)@ == old(dst)@ + src@,
{
    let mut i: usize = 0;
    proof {
        assert(old(dst)@ + src@.take(0) =~= old(dst)@);
    }
    while i < src.len()
        invariant
            i <= src@.len(),
            dst@ =~= old(dst)@ + src@.take(i as int),
        decreases src@.len() - i,
    {
        dst.push(src[i]);
        proof {
            assert(old(dst)@ + src@.take(i + 1) =~= (old(dst)@ + src@.take(i as int)).push(
                src@[i as int],
            ));
        }
        i = i + 1;
    }
    proof {
        assert(src@.take(src@.len() as int) =~= src@);
    }
}

/// Computes the challenge hash sent in place of the plaintext password:
/// 40 lower-case hexadecimal characters.
pub fn sha1_password_hash(password: &Vec<u8>, nonce: &Vec<u8>) -> (r: String)
    ensures
        r@ == login_hash(password@, nonce@),
        r@.len() == 40,
{
    let d1 = sha1_digest(password);
    let hex1 = hex_encode(&d1);
    let mut msg: Vec<u8> = Vec::new();
    push_bytes(&mut msg, nonce);
    let b1 = hex1.as_str().as_bytes_vec();
    proof {
        lemma_hex_chars_encode(d1@);
    }
    push_bytes(&mut msg, &b1);
    let d2 = sha1_digest(&msg);
    let r = hex_encode(&d2);
    proof {
        lemma_hex_chars_len(d2@);
    }
    r
}

} // verus!
