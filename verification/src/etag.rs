//! Entity tags: fingerprints of byte content.
//!
//! The fingerprint of a buffer is its CRC-64 checksum (polynomial of
//! ECMA-182, most significant bit first, zero initial value, no final
//! inversion), carried in a weak entity tag.  Equal contents have equal
//! tags.  Different contents mostly have different tags, and always where
//! they differ in a single byte; but a checksum of 64 bits cannot tell all
//! contents apart.

use vstd::prelude::*;

verus! {

/// The generator polynomial of ECMA-182, without its leading term.
pub const POLYNOMIAL: u64 = 0x42F0_E1EB_A9EA_3693;

/// The top bit of the checksum register.
pub const TOP_BIT: u64 = 0x8000_0000_0000_0000;

/// A fingerprint of byte content, comparable with `==`.
#[derive(Clone, Copy, Debug, PartialEq, Eq, Structural)]
pub struct EntityTag {
    /// Whether the tag only promises equivalent, not identical, content.
    pub weak: bool,
    /// The checksum of the content.
    pub tag: u64,
}

impl View for EntityTag {
    type V = EntityTag;

    open spec fn view(&self) -> EntityTag {
        *self
    }
}

/// The register after one more zero bit was shifted in.
pub open spec fn shifted(reg: u64) -> u64 {
    if reg & TOP_BIT != 0 {
        (reg << 1) ^ POLYNOMIAL
    } else {
        reg << 1
    }
}

/// The register after `n` more zero bits were shifted in.
pub open spec fn shifted_by(reg: u64, n: nat) -> u64
    decreases n,
{
    if n == 0 {
        reg
    } else {
        shifted_by(shifted(reg), (n - 1) as nat)
    }
}

/// The register after the byte `b` was fed into it.
pub open spec fn fed(reg: u64, b: u8) -> u64 {
    shifted_by(reg ^ ((b as u64) << 56), 8)
}

/// The CRC-64 checksum of `bytes`.
pub open spec fn crc64(bytes: Seq<u8>) -> u64
    decreases bytes.len(),
{
    if bytes.len() == 0 {
        0
    } else {
        fed(crc64(bytes.drop_last()), bytes.last())
    }
}

/// The entity tag of `bytes`: a weak tag that holds their checksum.
pub open spec fn etag_of(bytes: Seq<u8>) -> EntityTag {
    EntityTag { weak: true, tag: crc64(bytes) }
}

/// Feeds one byte into the checksum register.
fn feed(reg: u64, b: u8) -> (out: u64)
    ensures
        out == fed(reg, b),
{
    let mut cur: u64 = reg ^ ((b as u64) << 56);
    let mut n: u8 = 0;
    while n < 8
        invariant
            n <= 8,
            shifted_by(cur, (8 - n) as nat) == fed(reg, b),
        decreases 8 - n,
    {
        cur = if cur & TOP_BIT != 0 {
            (cur << 1) ^ POLYNOMIAL
        } else {
            cur << 1
        };
        n = n + 1;
    }
    cur
}

/// Computes the entity tag of `data`.  Equal content always gets the equal
/// tag.
pub fn compute_data_etag(data: &[u8]) -> (etag: EntityTag)
    ensures
        etag == etag_of(data@),
{
    let mut reg: u64 = 0;
    let mut i: usize = 0;
    while i < data.len()
        invariant
            i <= data.len(),
            reg == crc64(data@.take(i as int)),
        decreases data.len() - i,
    {
        proof {
            assert(data@.take(i + 1).drop_last() == data@.take(i as int));
        }
        reg = feed(reg, data[i]);
        i = i + 1;
    }
    proof {
        assert(data@.take(i as int) == data@);
    }
    EntityTag { weak: true, tag: reg }
}

/// Shifting a zero bit in loses nothing: different registers stay different.
proof fn lemma_shifted_is_injective(a: u64, b: u64)
    by (bit_vector)
    ensures
        shifted(a) == shifted(b) ==> a == b,
{
}

/// Feeding a byte in loses nothing of the byte: from one register, different
/// bytes lead to different registers.
proof fn lemma_byte_shows(reg: u64, a: u8, b: u8)
    by (bit_vector)
    ensures
        reg ^ ((a as u64) << 56) == reg ^ ((b as u64) << 56) ==> a == b,
{
}

/// Feeding a byte in loses nothing of the register: with one byte, different
/// registers lead to different registers.
proof fn lemma_register_shows(a: u64, b: u64, byte: u8)
    by (bit_vector)
    ensures
        a ^ ((byte as u64) << 56) == b ^ ((byte as u64) << 56) ==> a == b,
{
}

/// Different registers stay different however many zero bits are shifted in.
proof fn lemma_shifted_by_is_injective(a: u64, b: u64, n: nat)
    ensures
        shifted_by(a, n) == shifted_by(b, n) ==> a == b,
    decreases n,
{
    if n > 0 {
        lemma_shifted_by_is_injective(shifted(a), shifted(b), (n - 1) as nat);
        lemma_shifted_is_injective(a, b);
    }
}

/// `a` and `b` have the same length and differ in the byte at position `at`
/// and in no other.
pub open spec fn differ_only_at(a: Seq<u8>, b: Seq<u8>, at: int) -> bool {
    &&& a.len() == b.len()
    &&& 0 <= at < a.len()
    &&& a[at] != b[at]
    &&& forall|i: int| 0 <= i < a.len() && i != at ==> a[i] == b[i]
}

/// `a` and `b` have the same length and differ in exactly one byte.
pub open spec fn differ_in_one_byte(a: Seq<u8>, b: Seq<u8>) -> bool {
    exists|at: int| differ_only_at(a, b, at)
}

/// Contents that differ only in the byte at position `at` have different
/// checksums.
proof fn lemma_changed_byte_changes_checksum(a: Seq<u8>, b: Seq<u8>, at: int)
    requires
        differ_only_at(a, b, at),
    ensures
        crc64(a) != crc64(b),
    decreases a.len(),
{
    let before_a = crc64(a.drop_last());
    let before_b = crc64(b.drop_last());
    if at == a.len() - 1 {
        // The contents agree up to their last byte, which differs.
        assert(a.drop_last() =~= b.drop_last());
        lemma_byte_shows(before_a, a.last(), b.last());
        lemma_shifted_by_is_injective(
            before_a ^ ((a.last() as u64) << 56),
            before_a ^ ((b.last() as u64) << 56),
            8,
        );
    } else {
        // The checksums differ before the last byte, which is the same.
        assert(differ_only_at(a.drop_last(), b.drop_last(), at));
        lemma_changed_byte_changes_checksum(a.drop_last(), b.drop_last(), at);
        lemma_register_shows(before_a, before_b, a.last());
        lemma_shifted_by_is_injective(
            before_a ^ ((a.last() as u64) << 56),
            before_b ^ ((a.last() as u64) << 56),
            8,
        );
    }
}

/// Contents of the same length that differ in exactly one byte have
/// different entity tags.  (Contents that differ in more than that may share
/// a tag: a zero byte in front of a content, for one, does not show in its
/// checksum.)
pub proof fn law_one_changed_byte_changes_the_tag(a: Seq<u8>, b: Seq<u8>)
    requires
        differ_in_one_byte(a, b),
    ensures
        etag_of(a) != etag_of(b),
{
    let at = choose|at: int| differ_only_at(a, b, at);
    lemma_changed_byte_changes_checksum(a, b, at);
}

/// The digits of base sixteen, in upper case.
pub open spec fn hex_digits() -> Seq<char> {
    "0123456789ABCDEF"@
}

/// `value` written in base sixteen with upper-case digits and no leading
/// zeros; zero is written as one digit.
pub open spec fn hex(value: nat) -> Seq<char>
    decreases value,
{
    if value < 16 {
        seq![hex_digits()[value as int]]
    } else {
        hex(value / 16).push(hex_digits()[(value % 16) as int])
    }
}

impl EntityTag {
    /// The tag as it is written in a header: the checksum in upper-case
    /// hexadecimal digits between double quotes, with `W/` in front of a weak
    /// tag.
    pub open spec fn text(self) -> Seq<char> {
        (if self.weak {
            "W/\""@
        } else {
            "\""@
        }) + hex(self.tag as nat) + "\""@
    }

    /// Writes the tag out as text.
    pub fn to_text(&self) -> (text: String)
        ensures
            text@ == self.text(),
    {
        let mut text = if self.weak {
            String::from_str("W/\"")
        } else {
            String::from_str("\"")
        };
        append_hex(&mut text, self.tag);
        text.append("\"");
        text
    }
}

/// The digit of base sixteen that stands for `n`, as a string of its own.
fn digit(n: u64) -> (d: &'static str)
    requires
        n < 16,
    ensures
        d@ == seq![hex_digits()[n as int]],
{
    let digits = "0123456789ABCDEF";
    proof {
        reveal_strlit("0123456789ABCDEF");
    }
    digits.substring_ascii(n as usize, n as usize + 1)
}

/// Appends `value` in base sixteen to `text`.
fn append_hex(text: &mut String, value: u64)
    ensures
        final(text)@ == old(text)@ + hex(value as nat),
    decreases value,
{
    if value >= 16 {
        append_hex(text, value / 16);
    }
    text.append(digit(value % 16));
}

} // verus!
