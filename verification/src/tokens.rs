use vstd::prelude::*;
use vstd::utf8::encode_utf8;
use sha2::Digest;
use crate::text::{push_char, string_of, slice_range, char_vec};

verus! {

/// The lowercase hexadecimal digit of `n` (below 16).
pub open spec fn hex_digit(n: u8) -> char {
    if n < 10 {
        (48 + n) as char
    } else {
        (87 + n) as char
    }
}

/// Two lowercase hexadecimal digits per byte, high digit first.
pub open spec fn lower_hex(bytes: Seq<u8>) -> Seq<char>
    decreases bytes.len(),
{
    if bytes.len() == 0 {
        Seq::empty()
    } else {
        seq![hex_digit(bytes[0] / 16), hex_digit(bytes[0] % 16)] + lower_hex(bytes.drop_first())
    }
}

/// A lowercase hexadecimal digit.
pub open spec fn is_lower_hex_char(c: char) -> bool {
    ('0' <= c && c <= '9') || ('a' <= c && c <= 'f')
}

pub proof fn lemma_lower_hex(bytes: Seq<u8>)
    ensures
        lower_hex(bytes).len() == 2 * bytes.len(),
        forall|i: int| 0 <= i < lower_hex(bytes).len() ==> is_lower_hex_char(#[trigger] lower_hex(bytes)[i]),
    decreases bytes.len(),
{
    if bytes.len() > 0 {
        lemma_lower_hex(bytes.drop_first());
        let h = seq![hex_digit(bytes[0] / 16), hex_digit(bytes[0] % 16)];
        let t = lower_hex(bytes.drop_first());
        assert forall|i: int| 0 <= i < (h + t).len() implies is_lower_hex_char(#[trigger] (h + t)[i]) by {
            if i >= 2 {
                assert((h + t)[i] == t[i - 2]);
            }
        }
    }
}

/// The high digit of the `i`-th byte stands at `2 * i`.
proof fn lemma_lower_hex_high_digit(bytes: Seq<u8>, i: int)
    requires
        0 <= i < bytes.len(),
    ensures
        lower_hex(bytes)[2 * i] == hex_digit(bytes[i] / 16),
    decreases i,
{
    if i > 0 {
        lemma_lower_hex_high_digit(bytes.drop_first(), i - 1);
        lemma_lower_hex(bytes.drop_first());
    }
}

fn hex_char(n: u8) -> (c: char)
    requires
        n < 16,
    ensures
        c == hex_digit(n),
{
    if n < 10 {
        (48 + n) as char
    } else {
        (87 + n) as char
    }
}

proof fn lemma_lower_hex_push(bytes: Seq<u8>, b: u8)
    ensures
        lower_hex(bytes.push(b)) == lower_hex(bytes) + seq![hex_digit(b / 16), hex_digit(b % 16)],
    decreases bytes.len(),
{
    if bytes.len() == 0 {
        assert(bytes.push(b).drop_first() =~= Seq::<u8>::empty());
        assert(bytes.push(b)[0] == b);
        assert(lower_hex(bytes.push(b).drop_first()) =~= Seq::<char>::empty());
        assert(lower_hex(bytes.push(b)) =~= seq![hex_digit(b / 16), hex_digit(b % 16)]);
        assert(lower_hex(bytes) =~= Seq::<char>::empty());
        assert(lower_hex(bytes) + seq![hex_digit(b / 16), hex_digit(b % 16)] =~= seq![hex_digit(b / 16), hex_digit(b % 16)]);
    } else {
        assert(bytes.push(b).drop_first() =~= bytes.drop_first().push(b));
        lemma_lower_hex_push(bytes.drop_first(), b);
        assert(bytes.push(b)[0] == bytes[0]);
        let h = seq![hex_digit(bytes[0] / 16), hex_digit(bytes[0] % 16)];
        assert(h + (lower_hex(bytes.drop_first()) + seq![hex_digit(b / 16), hex_digit(b % 16)])
            =~= (h + lower_hex(bytes.drop_first())) + seq![hex_digit(b / 16), hex_digit(b % 16)]);
    }
}

/// Appends the lowercase hexadecimal digits of `bytes` to `out`.
fn push_lower_hex(out: &mut String, bytes: &[u8])
    ensures
        final(out)@ == old(out)@ + lower_hex(bytes@),
{
    let ghost start = out@;
    let mut i: usize = 0;
    proof {
        assert(bytes@.take(0) =~= Seq::<u8>::empty());
        assert(start + lower_hex(bytes@.take(0)) =~= start);
    }
    while i < bytes.len()
        invariant
            i <= bytes@.len(),
            out@ == start + lower_hex(bytes@.take(i as int)),
        decreases bytes@.len() - i,
    {
        let b = bytes[i];
        proof {
            assert(bytes@.take(i + 1) =~= bytes@.take(i as int).push(b));
            lemma_lower_hex_push(bytes@.take(i as int), b);
        }
        push_char(out, hex_char(b / 16));
        push_char(out, hex_char(b % 16));
        i = i + 1;
        assert(out@ =~= start + lower_hex(bytes@.take(i as int)));
    }
    assert(bytes@.take(i as int) =~= bytes@);
}

/// The SHA-256 digest of a byte sequence.
pub uninterp spec fn sha256(data: Seq<u8>) -> Seq<u8>;

/// `sha2::Sha256::digest`: the SHA-256 digest of `data`, whose 32 bytes the digest type
/// fixes.
#[verifier::external_body]
fn sha256_digest(data: &[u8]) -> (d: Vec<u8>)
    ensures
        d@ == sha256(data@),
        d@.len() == 32,
{
    sha2::Sha256::digest(data).to_vec()
}

/// The stored form of an auth token: the lowercase hexadecimal SHA-256 digest of its
/// UTF-8 bytes.
pub fn hash_token(token: &str) -> (h: String)
    ensures
        h@ == lower_hex(sha256(encode_utf8(token@))),
        h@.len() == 64,
        forall|i: int| 0 <= i < 64 ==> is_lower_hex_char(#[trigger] h@[i]),
{
    let d = sha256_digest(token.as_bytes());
    proof {
        lemma_lower_hex(d@);
    }
    hex_string(d.as_slice())
}

/// The lowercase hexadecimal text of a byte string, two digits per byte.
pub fn hex_string(bytes: &[u8]) -> (h: String)
    ensures
        h@ == lower_hex(bytes@),
{
    let mut h = String::new();
    push_lower_hex(&mut h, bytes);
    assert(Seq::<char>::empty() + lower_hex(bytes@) =~= lower_hex(bytes@));
    h
}


/// `uuid::Uuid::new_v4`: the 16 bytes of a fresh random UUID. They come from the
/// system's random source, so nothing is stated of them but their number and the fixed
/// bits of a version 4 UUID: version 4 in the high half of byte 6, and the variant bits
/// `10` on top of byte 8.
#[verifier::external_body]
fn random_uuid_bytes() -> (b: Vec<u8>)
    ensures
        b@.len() == 16,
        b@[6] / 16 == 4,
        b@[8] / 64 == 2,
{
    uuid::Uuid::new_v4().as_bytes().to_vec()
}

/// The simple text form of a UUID: 32 lowercase hexadecimal digits.
pub open spec fn uuid_simple(b: Seq<u8>) -> Seq<char> {
    lower_hex(b)
}

/// The hyphenated text form of a UUID: groups of 8, 4, 4, 4 and 12 lowercase hexadecimal
/// digits joined by '-'.
pub open spec fn uuid_hyphenated(b: Seq<u8>) -> Seq<char> {
    lower_hex(b.subrange(0, 4)) + seq!['-'] + lower_hex(b.subrange(4, 6)) + seq!['-']
        + lower_hex(b.subrange(6, 8)) + seq!['-'] + lower_hex(b.subrange(8, 10)) + seq!['-']
        + lower_hex(b.subrange(10, 16))
}

fn push_uuid_hyphenated(out: &mut String, b: &[u8])
    requires
        b@.len() == 16,
    ensures
        final(out)@ == old(out)@ + uuid_hyphenated(b@),
{
    let ghost start = out@;
    push_lower_hex(out, slice_bytes(b, 0, 4).as_slice());
    push_char(out, '-');
    push_lower_hex(out, slice_bytes(b, 4, 6).as_slice());
    push_char(out, '-');
    push_lower_hex(out, slice_bytes(b, 6, 8).as_slice());
    push_char(out, '-');
    push_lower_hex(out, slice_bytes(b, 8, 10).as_slice());
    push_char(out, '-');
    push_lower_hex(out, slice_bytes(b, 10, 16).as_slice());
    assert(out@ =~= start + uuid_hyphenated(b@));
}

fn slice_bytes(v: &[u8], from: usize, to: usize) -> (r: Vec<u8>)
    requires
        from <= to <= v@.len(),
    ensures
        r@ == v@.subrange(from as int, to as int),
{
    let mut r: Vec<u8> = Vec::new();
    let mut k = from;
    while k < to
        invariant
            from <= k <= to <= v@.len(),
            r@ == v@.subrange(from as int, k as int),
        decreases to - k,
    {
        r.push(v[k]);
        assert(v@.subrange(from as int, k + 1) =~= v@.subrange(from as int, k as int).push(v@[k as int]));
        k = k + 1;
    }
    r
}

/// The public code of a session made from UUID bytes: the first 10 digits of its simple
/// form.
pub fn session_code_of(uuid_bytes: &[u8]) -> (code: String)
    requires
        uuid_bytes@.len() == 16,
    ensures
        code@ == uuid_simple(uuid_bytes@).take(10),
{
    let mut s = String::new();
    push_lower_hex(&mut s, uuid_bytes);
    proof {
        lemma_lower_hex(uuid_bytes@);
        assert(Seq::<char>::empty() + lower_hex(uuid_bytes@) =~= lower_hex(uuid_bytes@));
    }
    let v = char_vec(s.as_str());
    let head = slice_range(v.as_slice(), 0, 10);
    string_of(head.as_slice())
}

/// A fresh public code for a session: 10 lowercase hexadecimal digits of a random UUID.
pub fn generate_session_code() -> (code: String)
    ensures
        code@.len() == 10,
        forall|i: int| 0 <= i < 10 ==> is_lower_hex_char(#[trigger] code@[i]),
{
    let b = random_uuid_bytes();
    let code = session_code_of(b.as_slice());
    proof {
        lemma_lower_hex(b@);
        assert forall|i: int| 0 <= i < 10 implies is_lower_hex_char(#[trigger] code@[i]) by {
            assert(code@[i] == lower_hex(b@)[i]);
        }
    }
    code
}

/// The state token of an OAuth login made from two UUIDs: their simple forms, joined.
pub fn oauth_state_token_of(first: &[u8], second: &[u8]) -> (t: String)
    requires
        first@.len() == 16,
        second@.len() == 16,
    ensures
        t@ == uuid_simple(first@) + uuid_simple(second@),
{
    let mut t = String::new();
    push_lower_hex(&mut t, first);
    push_lower_hex(&mut t, second);
    assert(t@ =~= uuid_simple(first@) + uuid_simple(second@));
    t
}

/// A fresh state token for an OAuth login: 64 lowercase hexadecimal digits.
pub fn new_oauth_state_token() -> (t: String)
    ensures
        t@.len() == 64,
        forall|i: int| 0 <= i < 64 ==> is_lower_hex_char(#[trigger] t@[i]),
        t@[12] == '4' && t@[44] == '4',
{
    let a = random_uuid_bytes();
    let b = random_uuid_bytes();
    let t = oauth_state_token_of(a.as_slice(), b.as_slice());
    proof {
        lemma_lower_hex(a@);
        lemma_lower_hex(b@);
        assert forall|i: int| 0 <= i < 64 implies is_lower_hex_char(#[trigger] t@[i]) by {
            if i < 32 {
                assert(t@[i] == lower_hex(a@)[i]);
            } else {
                assert(t@[i] == lower_hex(b@)[i - 32]);
            }
        }
        lemma_lower_hex_high_digit(a@, 6);
        lemma_lower_hex_high_digit(b@, 6);
        assert(t@[44] == lower_hex(b@)[12]);
    }
    t
}

/// An auth token made from two UUIDs: the hyphenated form of the first, then the simple
/// form of the second.
pub fn auth_token_of(first: &[u8], second: &[u8]) -> (t: String)
    requires
        first@.len() == 16,
        second@.len() == 16,
    ensures
        t@ == uuid_hyphenated(first@) + uuid_simple(second@),
{
    let mut t = String::new();
    push_uuid_hyphenated(&mut t, first);
    push_lower_hex(&mut t, second);
    assert(t@ =~= uuid_hyphenated(first@) + uuid_simple(second@));
    t
}

/// A fresh auth token: a hyphenated UUID followed by a simple one, 68 characters, each
/// showing the version digit 4 of its UUID.
pub fn new_auth_token() -> (t: String)
    ensures
        t@.len() == 68,
        t@[8] == '-' && t@[13] == '-' && t@[18] == '-' && t@[23] == '-',
        t@[14] == '4' && t@[48] == '4',
{
    let a = random_uuid_bytes();
    let b = random_uuid_bytes();
    let t = auth_token_of(a.as_slice(), b.as_slice());
    proof {
        lemma_lower_hex(a@.subrange(0, 4));
        lemma_lower_hex(a@.subrange(4, 6));
        lemma_lower_hex(a@.subrange(6, 8));
        lemma_lower_hex(a@.subrange(8, 10));
        lemma_lower_hex(a@.subrange(10, 16));
        lemma_lower_hex(b@);
        lemma_lower_hex_high_digit(a@.subrange(6, 8), 0);
        lemma_lower_hex_high_digit(b@, 6);
        let h = uuid_hyphenated(a@);
        assert(h[14] == lower_hex(a@.subrange(6, 8))[0]);
        assert(t@[14] == h[14]);
        assert(t@[48] == lower_hex(b@)[12]);
        assert(t@[8] == h[8] && t@[13] == h[13] && t@[18] == h[18] && t@[23] == h[23]);
    }
    t
}

} // verus!
