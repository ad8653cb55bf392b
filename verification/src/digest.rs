//! Digests, and the keys under which the backend holds their blobs.

use vstd::prelude::*;
use vstd::string::*;

verus! {

/// The SHA-256 hash of no bytes at all: the hash reserved for empty content.
pub const EMPTY_HASH: [u8; 32] = [
    0xe3, 0xb0, 0xc4, 0x42, 0x98, 0xfc, 0x1c, 0x14, 0x9a, 0xfb, 0xf4, 0xc8, 0x99, 0x6f, 0xb9, 0x24,
    0x27, 0xae, 0x41, 0xe4, 0x64, 0x9b, 0x93, 0x4c, 0xa4, 0x95, 0x99, 0x1b, 0x78, 0x52, 0xb8, 0x55,
];

/// The identifier of a blob: the hash of its content and its declared size.
#[derive(Clone, Copy, Debug, PartialEq, Eq, Hash)]
pub struct DigestInfo {
    pub packed_hash: [u8; 32],
    pub size_bytes: u64,
}

/// What a [`DigestInfo`] is, mathematically.
pub struct DigestView {
    pub hash: Seq<u8>,
    pub size: nat,
}

impl View for DigestInfo {
    type V = DigestView;

    open spec fn view(&self) -> DigestView {
        DigestView { hash: self.packed_hash@, size: self.size_bytes as nat }
    }
}

/// Whether `d` is the zero digest: the reserved hash together with size 0.
pub open spec fn is_zero(d: DigestView) -> bool {
    d.size == 0 && d.hash == EMPTY_HASH@
}

impl DigestInfo {
    /// The digest with hash `packed_hash` and size `size_bytes`.
    pub fn new(packed_hash: [u8; 32], size_bytes: u64) -> (d: DigestInfo)
        ensures
            d@.hash == packed_hash@,
            d@.size == size_bytes,
    {
        DigestInfo { packed_hash, size_bytes }
    }
}

/// Tells whether `digest` is the zero digest.
pub fn is_zero_digest(digest: &DigestInfo) -> (zero: bool)
    ensures
        zero == is_zero(digest@),
{
    if digest.size_bytes != 0 {
        return false;
    }
    let mut i: usize = 0;
    while i < 32
        invariant
            i <= 32,
            forall|j: int| 0 <= j < i ==> digest.packed_hash@[j] == EMPTY_HASH@[j],
        decreases 32 - i,
    {
        if digest.packed_hash[i] != EMPTY_HASH[i] {
            return false;
        }
        i += 1;
    }
    assert(digest.packed_hash@ =~= EMPTY_HASH@);
    true
}

/// The digit of a value below sixteen: `0` to `9`, then `a` to `f`.
pub open spec fn digit_char(nibble: int) -> char {
    if nibble == 0 {
        '0'
    } else if nibble == 1 {
        '1'
    } else if nibble == 2 {
        '2'
    } else if nibble == 3 {
        '3'
    } else if nibble == 4 {
        '4'
    } else if nibble == 5 {
        '5'
    } else if nibble == 6 {
        '6'
    } else if nibble == 7 {
        '7'
    } else if nibble == 8 {
        '8'
    } else if nibble == 9 {
        '9'
    } else if nibble == 10 {
        'a'
    } else if nibble == 11 {
        'b'
    } else if nibble == 12 {
        'c'
    } else if nibble == 13 {
        'd'
    } else if nibble == 14 {
        'e'
    } else {
        'f'
    }
}

/// The hexadecimal rendering of `bytes`: two digits a byte, the high one first.
pub open spec fn hex_chars(bytes: Seq<u8>) -> Seq<char> {
    Seq::new(
        2 * bytes.len(),
        |i: int|
            if i % 2 == 0 {
                digit_char(bytes[i / 2] as int / 16)
            } else {
                digit_char(bytes[i / 2] as int % 16)
            },
    )
}

/// The decimal rendering of `n`, without sign and without leading zeros.
pub open spec fn decimal_chars(n: nat) -> Seq<char>
    decreases n,
{
    if n < 10 {
        seq![digit_char(n as int)]
    } else {
        decimal_chars(n / 10).push(digit_char((n % 10) as int))
    }
}

/// The characters of the key under which the backend holds the blob of `d`:
/// the hash in hexadecimal, a hyphen, the size in decimal.
pub open spec fn key_chars(d: DigestView) -> Seq<char> {
    hex_chars(d.hash) + seq!['-'] + decimal_chars(d.size)
}

/// The bytes of the key under which the backend holds the blob of `d`.
pub open spec fn key_bytes(d: DigestView) -> Seq<u8> {
    vstd::utf8::encode_utf8(key_chars(d))
}

/// Different values below sixteen have different digits.
pub proof fn lemma_digit_char_injective(a: int, b: int)
    requires
        0 <= a < 16,
        0 <= b < 16,
        digit_char(a) == digit_char(b),
    ensures
        a == b,
{
}

/// Different byte strings have different hexadecimal renderings.
pub proof fn lemma_hex_chars_injective(a: Seq<u8>, b: Seq<u8>)
    requires
        hex_chars(a) == hex_chars(b),
    ensures
        a == b,
{
    assert(hex_chars(a).len() == 2 * a.len());
    assert(hex_chars(b).len() == 2 * b.len());
    assert forall|i: int| 0 <= i < a.len() implies a[i] == b[i] by {
        let x: int = a[i] as int;
        let y: int = b[i] as int;
        assert((2 * i) % 2 == 0 && (2 * i) / 2 == i);
        assert((2 * i + 1) % 2 == 1 && (2 * i + 1) / 2 == i);
        assert(hex_chars(a)[2 * i] == digit_char(x / 16));
        assert(hex_chars(b)[2 * i] == digit_char(y / 16));
        assert(hex_chars(a)[2 * i + 1] == digit_char(x % 16));
        assert(hex_chars(b)[2 * i + 1] == digit_char(y % 16));
        lemma_digit_char_injective(x / 16, y / 16);
        lemma_digit_char_injective(x % 16, y % 16);
    }
    assert(a =~= b);
}

/// A decimal rendering has one character exactly when the number is below ten.
pub proof fn lemma_decimal_chars_len(n: nat)
    ensures
        decimal_chars(n).len() >= 1,
        n < 10 <==> decimal_chars(n).len() == 1,
    decreases n,
{
    if n >= 10 {
        lemma_decimal_chars_len(n / 10);
    }
}

/// Different numbers have different decimal renderings.
pub proof fn lemma_decimal_chars_injective(a: nat, b: nat)
    requires
        decimal_chars(a) == decimal_chars(b),
    ensures
        a == b,
    decreases a,
{
    lemma_decimal_chars_len(a);
    lemma_decimal_chars_len(b);
    if a < 10 {
        assert(decimal_chars(a)[0] == digit_char(a as int));
        assert(decimal_chars(b)[0] == digit_char(b as int));
        lemma_digit_char_injective(a as int, b as int);
    } else {
        let da = decimal_chars(a / 10);
        let db = decimal_chars(b / 10);
        assert(decimal_chars(a).drop_last() =~= da);
        assert(decimal_chars(b).drop_last() =~= db);
        assert(decimal_chars(a).last() == digit_char((a % 10) as int));
        assert(decimal_chars(b).last() == digit_char((b % 10) as int));
        lemma_decimal_chars_injective(a / 10, b / 10);
        lemma_digit_char_injective((a % 10) as int, (b % 10) as int);
    }
}

/// Two digests never share a key: the key determines the hash and the size.
pub proof fn law_key_determines_digest(a: DigestInfo, b: DigestInfo)
    requires
        key_chars(a@) == key_chars(b@),
    ensures
        a@ == b@,
{
    let ka = key_chars(a@);
    let kb = key_chars(b@);
    let ha = hex_chars(a@.hash);
    let hb = hex_chars(b@.hash);
    assert(a@.hash.len() == 32 && b@.hash.len() == 32);
    assert(ha.len() == 64 && hb.len() == 64);
    assert(ka.subrange(0, 64) =~= ha);
    assert(kb.subrange(0, 64) =~= hb);
    lemma_hex_chars_injective(a@.hash, b@.hash);
    assert(ka.subrange(65, ka.len() as int) =~= decimal_chars(a@.size));
    assert(kb.subrange(65, kb.len() as int) =~= decimal_chars(b@.size));
    lemma_decimal_chars_injective(a@.size, b@.size);
}

/// Two digests never share a key on the wire either.
pub proof fn law_key_bytes_determine_digest(a: DigestInfo, b: DigestInfo)
    requires
        key_bytes(a@) == key_bytes(b@),
    ensures
        a@ == b@,
{
    vstd::utf8::encode_utf8_decode_utf8(key_chars(a@));
    vstd::utf8::encode_utf8_decode_utf8(key_chars(b@));
    law_key_determines_digest(a, b);
}

/// The text of one digit.
fn digit_text(nibble: u8) -> (text: &'static str)
    requires
        nibble < 16,
    ensures
        text@ == seq![digit_char(nibble as int)],
{
    proof {
        reveal_strlit("0");
        reveal_strlit("1");
        reveal_strlit("2");
        reveal_strlit("3");
        reveal_strlit("4");
        reveal_strlit("5");
        reveal_strlit("6");
        reveal_strlit("7");
        reveal_strlit("8");
        reveal_strlit("9");
        reveal_strlit("a");
        reveal_strlit("b");
        reveal_strlit("c");
        reveal_strlit("d");
        reveal_strlit("e");
        reveal_strlit("f");
    }
    let text = if nibble == 0 {
        "0"
    } else if nibble == 1 {
        "1"
    } else if nibble == 2 {
        "2"
    } else if nibble == 3 {
        "3"
    } else if nibble == 4 {
        "4"
    } else if nibble == 5 {
        "5"
    } else if nibble == 6 {
        "6"
    } else if nibble == 7 {
        "7"
    } else if nibble == 8 {
        "8"
    } else if nibble == 9 {
        "9"
    } else if nibble == 10 {
        "a"
    } else if nibble == 11 {
        "b"
    } else if nibble == 12 {
        "c"
    } else if nibble == 13 {
        "d"
    } else if nibble == 14 {
        "e"
    } else {
        "f"
    };
    assert(text@ =~= seq![digit_char(nibble as int)]);
    text
}

/// Appends the decimal rendering of `n` to `out`.
fn push_decimal(out: &mut String, n: u64)
    ensures
        final(out)@ == old(out)@ + decimal_chars(n as nat),
    decreases n,
{
    if n >= 10 {
        push_decimal(out, n / 10);
    }
    out.append(digit_text((n % 10) as u8));
    assert(final(out)@ =~= old(out)@ + decimal_chars(n as nat));
}

impl DigestInfo {
    /// The hash in lower-case hexadecimal.
    pub fn hash_str(&self) -> (text: String)
        ensures
            text@ == hex_chars(self@.hash),
    {
        let mut text = String::new();
        let mut i: usize = 0;
        while i < 32
            invariant
                i <= 32,
                text@.len() == 2 * i,
                forall|j: int| 0 <= j < 2 * i ==> text@[j] == hex_chars(self.packed_hash@)[j],
            decreases 32 - i,
        {
            let byte: u8 = self.packed_hash[i];
            text.append(digit_text(byte / 16));
            text.append(digit_text(byte % 16));
            i += 1;
        }
        assert(text@ =~= hex_chars(self.packed_hash@));
        text
    }
}

/// The key under which the backend holds the blob of `digest`.
pub fn digest_to_key(digest: &DigestInfo) -> (key: String)
    ensures
        key@ == key_chars(digest@),
{
    let mut key = digest.hash_str();
    proof {
        reveal_strlit("-");
    }
    key.append("-");
    push_decimal(&mut key, digest.size_bytes);
    assert(key@ =~= key_chars(digest@));
    key
}

} // verus!
