//! SHA-256 digests: computing, comparing and writing them down.

use vstd::prelude::*;

verus! {

/// `sha2::Sha256`, the hasher itself.
#[verifier::external_type_specification]
#[verifier::external_body]
pub struct HasherType(sha2::Sha256);

/// The bytes that a hasher has taken in so far, in order.
pub uninterp spec fn taken_in(hasher: sha2::Sha256) -> Seq<u8>;

/// The SHA-256 digest of `bytes`.
pub uninterp spec fn sha256(bytes: Seq<u8>) -> Seq<u8>;

/// `sha2::Digest::new` gives a hasher that has taken in nothing.
#[verifier::external_body]
fn hasher_new() -> (hasher: sha2::Sha256)
    ensures
        taken_in(hasher) == Seq::<u8>::empty(),
{
    sha2::Digest::new()
}

/// `sha2::Digest::update` takes in `bytes` behind what came before.
#[verifier::external_body]
fn hasher_update(hasher: &mut sha2::Sha256, bytes: &[u8])
    ensures
        taken_in(*final(hasher)) == taken_in(*old(hasher)) + bytes@,
{
    sha2::Digest::update(hasher, bytes)
}

/// `sha2::Digest::finalize` gives the digest of all that was taken in.
#[verifier::external_body]
fn hasher_finalize(hasher: sha2::Sha256) -> (digest: [u8; 32])
    ensures
        digest@ == sha256(taken_in(hasher)),
{
    sha2::Digest::finalize(hasher).into()
}

/// A digest computed piece by piece, for content that is read in chunks.
pub struct ContentHasher {
    hasher: sha2::Sha256,
}

impl View for ContentHasher {
    type V = Seq<u8>;

    closed spec fn view(&self) -> Seq<u8> {
        taken_in(self.hasher)
    }
}

impl ContentHasher {
    /// A hasher of no content yet.
    pub fn new() -> (hasher: ContentHasher)
        ensures
            hasher@ == Seq::<u8>::empty(),
    {
        ContentHasher { hasher: hasher_new() }
    }

    /// Appends one chunk.
    pub fn take(&mut self, chunk: &[u8])
        ensures
            final(self)@ == old(self)@ + chunk@,
    {
        hasher_update(&mut self.hasher, chunk);
    }

    /// The digest of all chunks, in the order in which they came.
    pub fn finish(self) -> (digest: [u8; 32])
        ensures
            digest@ == sha256(self@),
    {
        hasher_finalize(self.hasher)
    }
}

/// The digest of `bytes`.
pub fn digest_of(bytes: &[u8]) -> (digest: [u8; 32])
    ensures
        digest@ == sha256(bytes@),
{
    let mut hasher = ContentHasher::new();
    hasher.take(bytes);
    proof {
        assert(Seq::<u8>::empty() + bytes@ =~= bytes@);
    }
    hasher.finish()
}

/// Whether two digests are equal.
pub fn same_hash(left: &[u8; 32], right: &[u8; 32]) -> (same: bool)
    ensures
        same == (*left == *right),
{
    let mut at: usize = 0;
    while at < 32
        invariant
            at <= 32,
            forall|i: int| 0 <= i < at ==> left[i] == right[i],
        decreases 32 - at,
    {
        if left[at] != right[at] {
            return false;
        }
        at += 1;
    }
    proof {
        assert(*left =~= *right);
    }
    true
}

/// The character of a hexadecimal digit, in lower case.
pub open spec fn hex_digit(value: int) -> char {
    if value < 10 {
        ('0' as int + value) as char
    } else {
        ('a' as int + value - 10) as char
    }
}

/// Two hexadecimal digits for each byte, the high half first.
pub open spec fn hex(bytes: Seq<u8>) -> Seq<char> {
    Seq::new(
        2 * bytes.len(),
        |i: int|
            if i % 2 == 0 {
                hex_digit(bytes[i / 2] as int / 16)
            } else {
                hex_digit(bytes[i / 2] as int % 16)
            },
    )
}

fn hex_char(value: u8) -> (character: char)
    requires
        value < 16,
    ensures
        character == hex_digit(value as int),
{
    if value < 10 {
        (48 + value) as char
    } else {
        (87 + value) as char
    }
}

/// Bytes in hexadecimal notation.
pub fn hex_text(bytes: &[u8]) -> (text: String)
    ensures
        text@ == hex(bytes@),
{
    let mut text = String::new();
    let mut at: usize = 0;
    while at < bytes.len()
        invariant
            at <= bytes.len(),
            text@ == hex(bytes@.take(at as int)),
        decreases bytes.len() - at,
    {
        let byte: u8 = bytes[at];
        text.push(hex_char(byte / 16));
        text.push(hex_char(byte % 16));
        proof {
            let done = bytes@.take(at as int);
            let more = bytes@.take(at + 1);
            assert(hex(more) =~= hex(done).push(hex_digit(byte as int / 16)).push(
                hex_digit(byte as int % 16),
            ));
        }
        at += 1;
    }
    proof {
        assert(bytes@.take(at as int) =~= bytes@);
    }
    text
}

/// A digest in hexadecimal notation.
pub fn hex_hash(hash: &[u8; 32]) -> (text: String)
    ensures
        text@ == hex(hash@),
{
    hex_text(hash.as_slice())
}

proof fn hex_digits_of(bytes: Seq<u8>, at: int)
    requires
        0 <= at < bytes.len(),
    ensures
        hex(bytes)[2 * at] == hex_digit(bytes[at] as int / 16),
        hex(bytes)[2 * at + 1] == hex_digit(bytes[at] as int % 16),
{
    let even = 2 * at;
    let odd = 2 * at + 1;
    assert(even / 2 == at && even % 2 == 0);
    assert(odd / 2 == at && odd % 2 == 1);
}

/// Different byte strings have different hexadecimal notations.
pub proof fn hex_is_injective(left: Seq<u8>, right: Seq<u8>)
    requires
        hex(left) == hex(right),
    ensures
        left == right,
{
    assert(hex(left).len() == 2 * left.len());
    assert(hex(right).len() == 2 * right.len());
    assert forall|i: int| 0 <= i < left.len() implies left[i] == right[i] by {
        hex_digits_of(left, i);
        hex_digits_of(right, i);
    }
    assert(left =~= right);
}

/// The last `digits` hexadecimal digits of a number.
pub open spec fn padded_hex(value: nat, digits: nat) -> Seq<char>
    decreases digits,
{
    if digits == 0 {
        Seq::empty()
    } else {
        padded_hex(value / 16, (digits - 1) as nat).push(hex_digit(value as int % 16))
    }
}

/// Appends the last `digits` hexadecimal digits of `value`.
pub fn push_hex(text: &mut String, value: u128, digits: u32)
    ensures
        final(text)@ == old(text)@ + padded_hex(value as nat, digits as nat),
    decreases digits,
{
    if digits > 0 {
        push_hex(text, value / 16, digits - 1);
        text.push(hex_char((value % 16) as u8));
        proof {
            assert(text@ =~= old(text)@ + padded_hex(value as nat, digits as nat));
        }
    } else {
        proof {
            assert(text@ =~= old(text)@ + padded_hex(value as nat, digits as nat));
        }
    }
}

/// A padded number has as many digits as were asked for, all of them
/// hexadecimal.
pub proof fn padded_hex_digits(value: nat, digits: nat)
    ensures
        padded_hex(value, digits).len() == digits,
        forall|i: int|
            0 <= i < digits ==> {
                ||| '0' <= #[trigger] padded_hex(value, digits)[i] <= '9'
                ||| 'a' <= padded_hex(value, digits)[i] <= 'f'
            },
    decreases digits,
{
    if digits > 0 {
        padded_hex_digits(value / 16, (digits - 1) as nat);
        let before = padded_hex(value / 16, (digits - 1) as nat);
        let all = padded_hex(value, digits);
        assert forall|i: int| 0 <= i < digits implies {
            ||| '0' <= #[trigger] all[i] <= '9'
            ||| 'a' <= all[i] <= 'f'
        } by {
            if i < digits - 1 {
                assert(all[i] == before[i]);
            } else {
                assert(all[i] == hex_digit(value as int % 16));
            }
        }
    }
}

} // verus!
