//! The address space: where a record lives follows from what names it.

use vstd::prelude::*;
use vstd::array::*;
use vstd::bytes::*;
use anchor_lang::prelude::Pubkey;

verus! {

/// The kind of record that an address is derived for.
#[derive(Clone, Copy, Debug, PartialEq, Eq, Structural)]
pub enum SeedTag {
    Authority,
    Config,
    Treasury,
    Index,
    Pointer,
    Proof,
    Payment,
    Task,
}

impl SeedTag {
    /// The byte that opens every address derived under this tag.
    pub open spec fn code(self) -> u8 {
        match self {
            SeedTag::Authority => 0u8,
            SeedTag::Config => 1u8,
            SeedTag::Treasury => 2u8,
            SeedTag::Index => 3u8,
            SeedTag::Pointer => 4u8,
            SeedTag::Proof => 5u8,
            SeedTag::Payment => 6u8,
            SeedTag::Task => 7u8,
        }
    }

    /// The byte that opens every address derived under this tag.
    pub fn byte(self) -> (b: u8)
        ensures
            b == self.code(),
    {
        match self {
            SeedTag::Authority => 0u8,
            SeedTag::Config => 1u8,
            SeedTag::Treasury => 2u8,
            SeedTag::Index => 3u8,
            SeedTag::Pointer => 4u8,
            SeedTag::Proof => 5u8,
            SeedTag::Payment => 6u8,
            SeedTag::Task => 7u8,
        }
    }
}

/// Whether a key part is short enough to be framed: its length fits in eight bytes.
pub open spec fn framable(part: Seq<u8>) -> bool {
    part.len() <= u64::MAX
}

/// Whether every part of a key is framable.
pub open spec fn all_framable(parts: Seq<Seq<u8>>) -> bool {
    forall|i: int| 0 <= i < parts.len() ==> framable(#[trigger] parts[i])
}

/// One key part as it stands in an address: its length, as eight little-endian
/// bytes, followed by its bytes.
pub open spec fn frame(part: Seq<u8>) -> Seq<u8> {
    spec_u64_to_le_bytes(part.len() as u64) + part
}

/// The key parts of an address, framed one after the other.
pub open spec fn frames(parts: Seq<Seq<u8>>) -> Seq<u8>
    decreases parts.len(),
{
    if parts.len() == 0 {
        Seq::empty()
    } else {
        frame(parts[0]) + frames(parts.drop_first())
    }
}

/// What a seed tag and key parts derive before any nonce: the byte of the
/// tag, then the framed parts.
pub open spec fn derived(tag: SeedTag, parts: Seq<Seq<u8>>) -> Seq<u8> {
    seq![tag.code()] + frames(parts)
}

/// Whether 32 bytes are a point on the signing curve, as `Pubkey` tells.
pub uninterp spec fn curve_point(key: Seq<u8>) -> bool;

/// Whether an address is a key: 32 bytes that are a point on the signing
/// curve. Who holds the secret to a key acts under the address.
pub open spec fn is_key(address: Seq<u8>) -> bool {
    address.len() == 32 && curve_point(address)
}

/// What a nonce adds to a derivation: that many zero bytes.
pub open spec fn padding(nonce: u8) -> Seq<u8> {
    Seq::new(nonce as nat, |i: int| 0u8)
}

/// What a seed tag and key parts derive under a given nonce.
pub open spec fn candidate(tag: SeedTag, parts: Seq<Seq<u8>>, nonce: u8) -> Seq<u8> {
    derived(tag, parts) + padding(nonce)
}

/// The nonce of a derivation: the least under which what is derived is not a key.
pub open spec fn spec_nonce(tag: SeedTag, parts: Seq<Seq<u8>>) -> u8 {
    if is_key(derived(tag, parts)) {
        1u8
    } else {
        0u8
    }
}

/// The address of the record that a seed tag and key parts name: what they
/// derive under their nonce.
pub open spec fn spec_address(tag: SeedTag, parts: Seq<Seq<u8>>) -> Seq<u8> {
    candidate(tag, parts, spec_nonce(tag, parts))
}

/// A framed part can be read back from the front of any byte string that
/// starts with it.
pub proof fn lemma_frame_prefix(a: Seq<u8>, x: Seq<u8>, b: Seq<u8>, y: Seq<u8>)
    requires
        framable(a),
        framable(b),
        frame(a) + x == frame(b) + y,
    ensures
        a == b,
        x == y,
{
    lemma_auto_spec_u64_to_from_le_bytes();
    let la = spec_u64_to_le_bytes(a.len() as u64);
    let lb = spec_u64_to_le_bytes(b.len() as u64);
    let l = frame(a) + x;
    let r = frame(b) + y;
    assert(l.subrange(0, 8) =~= la);
    assert(r.subrange(0, 8) =~= lb);
    assert(spec_u64_from_le_bytes(la) == a.len() as u64);
    assert(spec_u64_from_le_bytes(lb) == b.len() as u64);
    assert(a.len() == b.len());
    assert(l.subrange(8, 8 + a.len() as int) =~= a);
    assert(r.subrange(8, 8 + b.len() as int) =~= b);
    assert(l.subrange(8 + a.len() as int, l.len() as int) =~= x);
    assert(r.subrange(8 + b.len() as int, r.len() as int) =~= y);
}

/// Framing loses nothing, even with a few bytes behind the frames: what
/// follows the last frame is too short to be a frame itself.
pub proof fn lemma_frames_injective(p: Seq<Seq<u8>>, x: Seq<u8>, q: Seq<Seq<u8>>, y: Seq<u8>)
    requires
        all_framable(p),
        all_framable(q),
        x.len() < 8,
        y.len() < 8,
        frames(p) + x == frames(q) + y,
    ensures
        p == q,
        x == y,
    decreases p.len(),
{
    lemma_auto_spec_u64_to_from_le_bytes();
    if p.len() == 0 {
        if q.len() != 0 {
            assert(frames(q).len() >= 8);
            assert((frames(p) + x).len() == x.len());
            assert((frames(q) + y).len() >= 8);
        }
        assert(p =~= q);
        assert(frames(p) + x =~= x);
        assert(frames(q) + y =~= y);
    } else if q.len() == 0 {
        assert(frames(p).len() >= 8);
        assert((frames(q) + y).len() == y.len());
        assert((frames(p) + x).len() >= 8);
    } else {
        assert(framable(p[0]));
        assert(framable(q[0]));
        assert(frames(p) + x =~= frame(p[0]) + (frames(p.drop_first()) + x));
        assert(frames(q) + y =~= frame(q[0]) + (frames(q.drop_first()) + y));
        lemma_frame_prefix(p[0], frames(p.drop_first()) + x, q[0], frames(q.drop_first()) + y);
        assert forall|i: int| 0 <= i < p.drop_first().len() implies framable(
            #[trigger] p.drop_first()[i],
        ) by {
            assert(p.drop_first()[i] == p[i + 1]);
        }
        assert forall|i: int| 0 <= i < q.drop_first().len() implies framable(
            #[trigger] q.drop_first()[i],
        ) by {
            assert(q.drop_first()[i] == q[i + 1]);
        }
        lemma_frames_injective(p.drop_first(), x, q.drop_first(), y);
        assert(p =~= seq![p[0]] + p.drop_first());
        assert(q =~= seq![q[0]] + q.drop_first());
    }
}

/// Appending a part to a key appends its frame to the frames of the key.
pub proof fn lemma_frames_push(p: Seq<Seq<u8>>, part: Seq<u8>)
    ensures
        frames(p.push(part)) == frames(p) + frame(part),
    decreases p.len(),
{
    if p.len() == 0 {
        let rest = p.push(part).drop_first();
        assert(rest.len() == 0);
        assert(frames(rest) =~= Seq::<u8>::empty());
        assert(p.push(part)[0] == part);
        assert(frames(p) =~= Seq::<u8>::empty());
        assert(frames(p.push(part)) =~= frames(p) + frame(part));
    } else {
        lemma_frames_push(p.drop_first(), part);
        assert(p.push(part).drop_first() =~= p.drop_first().push(part));
        assert(p.push(part)[0] == p[0]);
        assert(frame(p[0]) + (frames(p.drop_first()) + frame(part)) =~= (frame(p[0]) + frames(
            p.drop_first(),
        )) + frame(part));
    }
}

/// Derivation is one-to-one: two derivations that differ in the tag or in any
/// key part give different addresses.
pub proof fn lemma_address_injective(t1: SeedTag, first: Seq<Seq<u8>>, t2: SeedTag, second: Seq<Seq<u8>>)
    requires
        all_framable(first),
        all_framable(second),
        spec_address(t1, first) == spec_address(t2, second),
    ensures
        t1 == t2,
        first == second,
{
    let a1 = spec_address(t1, first);
    let a2 = spec_address(t2, second);
    let x = padding(spec_nonce(t1, first));
    let y = padding(spec_nonce(t2, second));
    assert(a1[0] == t1.code());
    assert(a2[0] == t2.code());
    assert(a1.subrange(1, a1.len() as int) =~= frames(first) + x);
    assert(a2.subrange(1, a2.len() as int) =~= frames(second) + y);
    lemma_frames_injective(first, x, second, y);
}

/// The nonce does what it is for: the address of a record is never a key, so
/// nobody acts under it by holding a secret; and the nonce is the least that
/// achieves this, which is none wherever what is derived is not as wide as a
/// key.
pub proof fn address_is_no_key(tag: SeedTag, parts: Seq<Seq<u8>>)
    ensures
        !is_key(spec_address(tag, parts)),
        forall|nonce: u8| nonce < spec_nonce(tag, parts) ==> is_key(candidate(tag, parts, nonce)),
        derived(tag, parts).len() != 32 ==> spec_nonce(tag, parts) == 0,
{
    assert(candidate(tag, parts, 0u8) =~= derived(tag, parts));
    if is_key(derived(tag, parts)) {
        assert(spec_address(tag, parts).len() == 33);
    }
}

/// The address of a record opens with the byte of its tag.
pub proof fn lemma_address_opens_with_tag(tag: SeedTag, parts: Seq<Seq<u8>>)
    ensures
        spec_address(tag, parts).len() > 0,
        spec_address(tag, parts)[0] == tag.code(),
{
}

/// The key that a list of parts stands for.
pub open spec fn key_of(parts: &Vec<Vec<u8>>) -> Seq<Seq<u8>> {
    Seq::new(parts.len() as nat, |i: int| parts[i]@)
}

/// Every key that a program can hold is framable.
pub proof fn lemma_key_of_framable(parts: &Vec<Vec<u8>>)
    ensures
        all_framable(key_of(parts)),
{
    assert forall|i: int| 0 <= i < key_of(parts).len() implies framable(
        #[trigger] key_of(parts)[i],
    ) by {
        assert(key_of(parts)[i] == parts[i]@);
        assert(parts[i].len() == parts[i]@.len());
    }
}

/// Where a record lives, or who a party is: a string of bytes.
#[derive(Debug)]
pub struct Address {
    pub bytes: Vec<u8>,
}

impl View for Address {
    type V = Seq<u8>;

    open spec fn view(&self) -> Seq<u8> {
        self.bytes@
    }
}

impl Clone for Address {
    fn clone(&self) -> (r: Address)
        ensures
            r@ == self@,
    {
        Address { bytes: copy_bytes(&self.bytes) }
    }
}

impl Address {
    /// The address made of the given bytes.
    pub fn from_bytes(bytes: Vec<u8>) -> (a: Address)
        ensures
            a@ == bytes@,
    {
        Address { bytes }
    }

    /// Whether two addresses are the same.
    pub fn same(&self, other: &Address) -> (r: bool)
        ensures
            r == (self@ == other@),
    {
        bytes_equal(&self.bytes, &other.bytes)
    }
}

/// Every address that a program can hold is framable.
pub proof fn lemma_address_framable(a: &Address)
    ensures
        framable(a@),
{
    assert(a.bytes.len() == a.bytes@.len());
}

/// A party that acts under a key of its own: the 32 bytes of that key.
#[derive(Clone, Copy, Debug)]
pub struct Identity {
    pub key: [u8; 32],
}

impl View for Identity {
    type V = Seq<u8>;

    open spec fn view(&self) -> Seq<u8> {
        self.key@
    }
}

impl Identity {
    /// The address under which this party is known.
    pub fn address(&self) -> (a: Address)
        ensures
            a@ == self@,
    {
        let mut bytes: Vec<u8> = Vec::new();
        let mut i: usize = 0;
        while i < 32
            invariant
                i <= 32,
                bytes@ == self.key@.take(i as int),
            decreases 32 - i,
        {
            bytes.push(self.key[i]);
            assert(self.key@.take(i + 1) =~= self.key@.take(i as int).push(self.key@[i as int]));
            i += 1;
        }
        assert(self.key@.take(32) =~= self.key@);
        Address { bytes }
    }
}

/// A copy of a byte string.
pub fn copy_bytes(src: &Vec<u8>) -> (out: Vec<u8>)
    ensures
        out@ == src@,
{
    let mut out: Vec<u8> = Vec::new();
    append_bytes(&mut out, src);
    assert(Seq::<u8>::empty() + src@ =~= src@);
    out
}

/// Appends one byte string to another.
pub fn append_bytes(out: &mut Vec<u8>, src: &Vec<u8>)
    ensures
        final(out)@ == old(out)@ + src@,
{
    let mut i: usize = 0;
    while i < src.len()
        invariant
            i <= src.len(),
            out@ == old(out)@ + src@.take(i as int),
        decreases src.len() - i,
    {
        out.push(src[i]);
        assert(src@.take(i + 1) =~= src@.take(i as int).push(src@[i as int]));
        assert(out@ =~= old(out)@ + src@.take(i + 1));
        i += 1;
    }
    assert(src@.take(src.len() as int) =~= src@);
}

/// Whether two byte strings are the same.
pub fn bytes_equal(a: &Vec<u8>, b: &Vec<u8>) -> (r: bool)
    ensures
        r == (a@ == b@),
{
    if a.len() != b.len() {
        return false;
    }
    let mut i: usize = 0;
    while i < a.len()
        invariant
            i <= a.len(),
            a.len() == b.len(),
            a@.take(i as int) == b@.take(i as int),
        decreases a.len() - i,
    {
        if a[i] != b[i] {
            assert(a@[i as int] != b@[i as int]);
            return false;
        }
        assert(a@.take(i + 1) =~= a@.take(i as int).push(a@[i as int]));
        assert(b@.take(i + 1) =~= b@.take(i as int).push(b@[i as int]));
        i += 1;
    }
    assert(a@.take(a.len() as int) =~= a@);
    assert(b@.take(b.len() as int) =~= b@);
    true
}

/// Calls `Pubkey::new_from_array` and then `Pubkey::is_on_curve`: whether the
/// 32 bytes are a point on the signing curve. The answer depends on the bytes
/// alone; the contract gives it the name `curve_point` and claims nothing
/// else of it.
#[verifier::external_body]
fn on_curve(key: &[u8; 32]) -> (r: bool)
    ensures
        r == curve_point(key@),
{
    Pubkey::new_from_array(*key).is_on_curve()
}

/// Whether an address is a key.
pub fn address_is_key(address: &Address) -> (r: bool)
    ensures
        r == is_key(address@),
{
    if address.bytes.len() != 32 {
        return false;
    }
    let mut key: [u8; 32] = [0u8; 32];
    let mut i: usize = 0;
    while i < 32
        invariant
            i <= 32,
            address.bytes.len() == 32,
            forall|j: int| 0 <= j < i ==> key@[j] == address@[j],
        decreases 32 - i,
    {
        key[i] = address.bytes[i];
        i += 1;
    }
    assert(key@ =~= address@);
    on_curve(&key)
}

/// What a seed tag and key parts derive before any nonce.
pub fn framed(tag: SeedTag, parts: &Vec<Vec<u8>>) -> (a: Address)
    ensures
        a@ == derived(tag, key_of(parts)),
        all_framable(key_of(parts)),
{
    let ghost key = key_of(parts);
    let mut out: Vec<u8> = Vec::new();
    out.push(tag.byte());
    let mut i: usize = 0;
    assert(key.take(0) =~= Seq::<Seq<u8>>::empty());
    assert(out@ =~= seq![tag.code()] + frames(key.take(0)));
    while i < parts.len()
        invariant
            i <= parts.len(),
            key == key_of(parts),
            out@ == seq![tag.code()] + frames(key.take(i as int)),
        decreases parts.len() - i,
    {
        let part = &parts[i];
        let prefix = u64_to_le_bytes(part.len() as u64);
        append_bytes(&mut out, &prefix);
        append_bytes(&mut out, part);
        proof {
            lemma_frames_push(key.take(i as int), part@);
            assert(key.take(i + 1) =~= key.take(i as int).push(part@));
            assert(out@ =~= seq![tag.code()] + (frames(key.take(i as int)) + frame(part@)));
        }
        i += 1;
    }
    proof {
        assert(key.take(parts.len() as int) =~= key);
        lemma_key_of_framable(parts);
    }
    Address { bytes: out }
}

/// Puts the nonce to what was derived without one: a zero byte behind it if
/// it is a key as it stands, nothing if it is not. Returns the address and
/// the nonce.
pub fn sealed(base: Address, base_is_key: bool) -> (r: (Address, u8))
    ensures
        r.1 == (if base_is_key {
            1u8
        } else {
            0u8
        }),
        r.0@ == base@ + padding(r.1),
{
    let mut address = base;
    if base_is_key {
        address.bytes.push(0u8);
        assert(address@ =~= base@ + padding(1u8));
        (address, 1)
    } else {
        assert(address@ =~= base@ + padding(0u8));
        (address, 0)
    }
}

/// Derives the address that a seed tag and key parts name, and the nonce of
/// the derivation. The same tag and parts always give the same address, no
/// other tag or parts give it, and it is never a key.
pub fn derive(tag: SeedTag, parts: &Vec<Vec<u8>>) -> (r: (Address, u8))
    ensures
        r.0@ == spec_address(tag, key_of(parts)),
        r.1 == spec_nonce(tag, key_of(parts)),
        all_framable(key_of(parts)),
{
    let base = framed(tag, parts);
    let base_is_key = address_is_key(&base);
    sealed(base, base_is_key)
}

/// Whether `address` and `nonce` are what the tag and key parts derive.
pub fn verify(address: &Address, tag: SeedTag, parts: &Vec<Vec<u8>>, nonce: u8) -> (r: bool)
    ensures
        r == (address@ == spec_address(tag, key_of(parts)) && nonce == spec_nonce(
            tag,
            key_of(parts),
        )),
{
    let expected = derive(tag, parts);
    address.same(&expected.0) && nonce == expected.1
}

} // verus!
