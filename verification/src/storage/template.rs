//! The canonical byte form of a template, which the vault seals.
//!
//! Four numbers of eight bytes each come first: the creation time, the
//! length of the owner's identity id, the length of the embedding and the
//! number of angles. Then follow the owner's id, the embedding, and sixteen
//! bytes for each angle. All numbers are big-endian; signed ones are shifted
//! to be non-negative.

use vstd::prelude::*;
use crate::bytes::{
    be64, extend, from_be64, lemma_be64_of_bytes, lemma_be64_round_trip, push_be64, read_be64,
    slice_of,
};
use crate::types::FaceAngle;

verus! {

/// Length of the four numbers at the head.
pub const HEAD_LEN: usize = 32;

/// Length of one angle in the byte form.
pub const ANGLE_LEN: usize = 16;

/// A template as the vault holds it: the owner's identity id as bytes, the
/// embedding, the accepted angles and the creation time.
#[derive(Debug, Clone, PartialEq, Eq)]
pub struct Template {
    pub owner: Vec<u8>,
    pub embedding: Vec<u8>,
    pub angles: Vec<FaceAngle>,
    pub created_at: i64,
}

/// What a stored template is, as mathematical values.
pub struct TemplateView {
    pub owner: Seq<u8>,
    pub embedding: Seq<u8>,
    pub angles: Seq<FaceAngle>,
    pub created_at: i64,
}

impl View for Template {
    type V = TemplateView;

    open spec fn view(&self) -> TemplateView {
        TemplateView {
            owner: self.owner@,
            embedding: self.embedding@,
            angles: self.angles@,
            created_at: self.created_at,
        }
    }
}

/// A time, shifted to be non-negative.
pub open spec fn time_code(t: i64) -> u64 {
    (t as int + 0x8000_0000_0000_0000) as u64
}

/// An angle, shifted to be non-negative.
pub open spec fn angle_code(a: i32) -> u64 {
    (a as int + 0x8000_0000) as u64
}

/// The sixteen bytes of one angle: its shifted angle, then its quality.
pub open spec fn angle_record(a: FaceAngle) -> Seq<u8> {
    be64(angle_code(a.angle)) + be64(a.quality_score as u64)
}

/// The bytes of all angles, one record after the other.
pub open spec fn angle_bytes(angles: Seq<FaceAngle>) -> Seq<u8> {
    Seq::new(
        ANGLE_LEN as nat * angles.len(),
        |i: int| angle_record(angles[i / ANGLE_LEN as int])[i % ANGLE_LEN as int],
    )
}

/// The four numbers at the head of the byte form.
pub open spec fn head(t: TemplateView) -> Seq<u8> {
    be64(time_code(t.created_at)) + be64(t.owner.len() as u64) + be64(t.embedding.len() as u64)
        + be64(t.angles.len() as u64)
}

/// The byte form of a template.
pub open spec fn encoded(t: TemplateView) -> Seq<u8> {
    head(t) + t.owner + t.embedding + angle_bytes(t.angles)
}

/// The number in the eight bytes of `bytes` that start at `at`.
pub open spec fn field(bytes: Seq<u8>, at: int) -> u64 {
    from_be64(bytes.subrange(at, at + 8))
}

/// Whether the `k`-th record of sixteen bytes from `base` on holds an
/// angle: both of its numbers fit in 32 bits.
pub open spec fn angle_ok(bytes: Seq<u8>, base: int, k: int) -> bool {
    field(bytes, base + ANGLE_LEN * k) <= 0xffff_ffff && field(bytes, base + ANGLE_LEN * k + 8)
        <= 0xffff_ffff
}

/// The angle in the `k`-th record of sixteen bytes from `base` on.
pub open spec fn angle_at(bytes: Seq<u8>, base: int, k: int) -> FaceAngle {
    FaceAngle {
        angle: (field(bytes, base + ANGLE_LEN * k) as int - 0x8000_0000) as i32,
        quality_score: field(bytes, base + ANGLE_LEN * k + 8) as u32,
    }
}

/// The template that `bytes` are the byte form of, if they are one: the
/// head is complete, the lengths it names add up to the length of `bytes`,
/// and every angle fits.
pub open spec fn decoded(bytes: Seq<u8>) -> Option<TemplateView> {
    if bytes.len() < HEAD_LEN {
        None
    } else {
        let owner_len = field(bytes, 8) as int;
        let embedding_len = field(bytes, 16) as int;
        let count = field(bytes, 24) as int;
        let angles_at = HEAD_LEN + owner_len + embedding_len;
        if bytes.len() != angles_at + ANGLE_LEN * count {
            None
        } else if !(forall|k: int| 0 <= k < count ==> #[trigger] angle_ok(bytes, angles_at, k)) {
            None
        } else {
            Some(
                TemplateView {
                    owner: bytes.subrange(HEAD_LEN as int, HEAD_LEN + owner_len),
                    embedding: bytes.subrange(HEAD_LEN + owner_len, angles_at),
                    angles: Seq::new(count as nat, |k: int| angle_at(bytes, angles_at, k)),
                    created_at: (field(bytes, 0) as int - 0x8000_0000_0000_0000) as i64,
                },
            )
        }
    }
}

/// Whether the lengths of a template can be written in its head.
pub open spec fn encodable(t: TemplateView) -> bool {
    &&& t.owner.len() <= u64::MAX
    &&& t.embedding.len() <= u64::MAX
    &&& t.angles.len() <= u64::MAX
}

proof fn lemma_field_of_number(bytes: Seq<u8>, at: int, n: u64)
    requires
        0 <= at,
        at + 8 <= bytes.len(),
        forall|j: int| 0 <= j < 8 ==> bytes[at + j] == #[trigger] be64(n)[j],
    ensures
        field(bytes, at) == n,
{
    lemma_be64_round_trip(n);
    assert(bytes.subrange(at, at + 8) =~= be64(n));
}

proof fn lemma_head_fields(t: TemplateView)
    requires
        encodable(t),
    ensures
        head(t).len() == HEAD_LEN,
        field(encoded(t), 0) == time_code(t.created_at),
        field(encoded(t), 8) == t.owner.len(),
        field(encoded(t), 16) == t.embedding.len(),
        field(encoded(t), 24) == t.angles.len(),
{
    let b = encoded(t);
    let h = head(t);
    assert(h.len() == 32);
    assert forall|i: int| 0 <= i < 32 implies b[i] == h[i] by {}
    assert forall|j: int| 0 <= j < 8 implies b[0 + j] == #[trigger] be64(
        time_code(t.created_at),
    )[j] by {
        assert(b[j] == h[j]);
    }
    lemma_field_of_number(b, 0, time_code(t.created_at));
    assert forall|j: int| 0 <= j < 8 implies b[8 + j] == #[trigger] be64(t.owner.len() as u64)[j] by {
        assert(b[8 + j] == h[8 + j]);
    }
    lemma_field_of_number(b, 8, t.owner.len() as u64);
    assert forall|j: int| 0 <= j < 8 implies b[16 + j] == #[trigger] be64(
        t.embedding.len() as u64,
    )[j] by {
        assert(b[16 + j] == h[16 + j]);
    }
    lemma_field_of_number(b, 16, t.embedding.len() as u64);
    assert forall|j: int| 0 <= j < 8 implies b[24 + j] == #[trigger] be64(t.angles.len() as u64)[j] by {
        assert(b[24 + j] == h[24 + j]);
    }
    lemma_field_of_number(b, 24, t.angles.len() as u64);
}

proof fn lemma_angle_fields(t: TemplateView, k: int)
    requires
        0 <= k < t.angles.len(),
    ensures
        angle_ok(encoded(t), HEAD_LEN + t.owner.len() + t.embedding.len(), k),
        angle_at(encoded(t), HEAD_LEN + t.owner.len() + t.embedding.len(), k) == t.angles[k],
{
    let b = encoded(t);
    let base = HEAD_LEN + t.owner.len() + t.embedding.len();
    let a = t.angles[k];
    let at = base + ANGLE_LEN * k;
    assert(head(t).len() == 32);
    assert(b.len() == base + ANGLE_LEN * t.angles.len());
    assert forall|j: int| 0 <= j < ANGLE_LEN implies b[at + j] == angle_record(a)[j] by {
        let i = ANGLE_LEN * k + j;
        assert(i / ANGLE_LEN as int == k && i % ANGLE_LEN as int == j);
        assert(0 <= i < ANGLE_LEN * t.angles.len());
        assert(b[base + i] == angle_bytes(t.angles)[i]);
    }
    assert forall|j: int| 0 <= j < 8 implies b[at + j] == #[trigger] be64(angle_code(a.angle))[j] by {
        assert(b[at + j] == angle_record(a)[j]);
    }
    lemma_field_of_number(b, at, angle_code(a.angle));
    assert forall|j: int| 0 <= j < 8 implies b[at + 8 + j] == #[trigger] be64(
        a.quality_score as u64,
    )[j] by {
        assert(b[at + (8 + j)] == angle_record(a)[8 + j]);
    }
    lemma_field_of_number(b, at + 8, a.quality_score as u64);
}

/// The byte form of a template reads back as that template.
pub proof fn lemma_encode_then_decode(t: TemplateView)
    requires
        encodable(t),
    ensures
        decoded(encoded(t)) == Some(t),
{
    let b = encoded(t);
    let ol = t.owner.len() as int;
    let el = t.embedding.len() as int;
    let n = t.angles.len() as int;
    let base = HEAD_LEN + ol + el;
    lemma_head_fields(t);
    assert(b.len() == base + ANGLE_LEN * n);
    assert(b.subrange(HEAD_LEN as int, HEAD_LEN + ol) =~= t.owner);
    assert(b.subrange(HEAD_LEN + ol, base) =~= t.embedding);
    assert forall|k: int| 0 <= k < n implies #[trigger] angle_ok(b, base, k) && angle_at(
        b,
        base,
        k,
    ) == t.angles[k] by {
        lemma_angle_fields(t, k);
    }
    assert forall|k: int| 0 <= k < n implies #[trigger] angle_at(b, base, k) == t.angles[k] by {
        lemma_angle_fields(t, k);
    }
    let back = decoded(b);
    assert(back is Some);
    assert(back->0.angles =~= t.angles);
}

proof fn lemma_number_of_field(bytes: Seq<u8>, at: int, j: int)
    requires
        0 <= at,
        at + 8 <= bytes.len(),
        0 <= j < 8,
    ensures
        be64(field(bytes, at))[j] == bytes[at + j],
{
    lemma_be64_of_bytes(bytes.subrange(at, at + 8));
    assert(bytes.subrange(at, at + 8)[j] == bytes[at + j]);
}

/// Bytes that read as a template are the byte form of that template, so
/// a template has one byte form only.
pub proof fn lemma_decode_then_encode(bytes: Seq<u8>)
    requires
        decoded(bytes) is Some,
    ensures
        encoded(decoded(bytes)->0) == bytes,
        encodable(decoded(bytes)->0),
{
    let t = decoded(bytes)->0;
    let ol = field(bytes, 8) as int;
    let el = field(bytes, 16) as int;
    let n = field(bytes, 24) as int;
    let base = HEAD_LEN + ol + el;
    let e = encoded(t);
    assert(t.owner.len() == ol && t.embedding.len() == el && t.angles.len() == n);
    assert(time_code(t.created_at) == field(bytes, 0));
    assert(head(t).len() == 32);
    assert(e.len() == bytes.len());
    assert forall|i: int| 0 <= i < e.len() implies e[i] == bytes[i] by {
        if i < 8 {
            lemma_number_of_field(bytes, 0, i);
            assert(e[i] == be64(time_code(t.created_at))[i]);
        } else if i < 16 {
            lemma_number_of_field(bytes, 8, i - 8);
            assert(e[i] == be64(ol as u64)[i - 8]);
        } else if i < 24 {
            lemma_number_of_field(bytes, 16, i - 16);
            assert(e[i] == be64(el as u64)[i - 16]);
        } else if i < 32 {
            lemma_number_of_field(bytes, 24, i - 24);
            assert(e[i] == be64(n as u64)[i - 24]);
        } else if i < 32 + ol {
            assert(e[i] == t.owner[i - 32]);
        } else if i < base {
            assert(e[i] == t.embedding[i - 32 - ol]);
        } else {
            let r = i - base;
            let k = r / ANGLE_LEN as int;
            let j = r % ANGLE_LEN as int;
            assert(0 <= k < n);
            assert(e[i] == angle_bytes(t.angles)[r]);
            assert(angle_bytes(t.angles)[r] == angle_record(t.angles[k])[j]);
            assert(t.angles[k] == angle_at(bytes, base, k));
            assert(angle_ok(bytes, base, k));
            let at = base + ANGLE_LEN * k;
            assert(angle_code(t.angles[k].angle) == field(bytes, at));
            assert(t.angles[k].quality_score as u64 == field(bytes, at + 8));
            if j < 8 {
                lemma_number_of_field(bytes, at, j);
            } else {
                lemma_number_of_field(bytes, at + 8, j - 8);
            }
        }
    }
    assert(e =~= bytes);
}

proof fn lemma_angle_bytes_grow(angles: Seq<FaceAngle>, n: int)
    requires
        0 <= n < angles.len(),
    ensures
        angle_bytes(angles.take(n + 1)) == angle_bytes(angles.take(n)) + angle_record(angles[n]),
{
    let longer = angle_bytes(angles.take(n + 1));
    let joined = angle_bytes(angles.take(n)) + angle_record(angles[n]);
    assert(longer.len() == joined.len());
    assert forall|i: int| 0 <= i < longer.len() implies longer[i] == joined[i] by {
        let k = i / ANGLE_LEN as int;
        let j = i % ANGLE_LEN as int;
        if i < ANGLE_LEN * n {
            assert(k < n);
            assert(angles.take(n + 1)[k] == angles.take(n)[k]);
        } else {
            assert(k == n);
            assert(i - ANGLE_LEN * n == j);
        }
    }
    assert(longer =~= joined);
}

impl Template {
    /// Writes the byte form of the template.
    pub fn encode(&self) -> (out: Vec<u8>)
        ensures
            out@ == encoded(self@),
    {
        let mut out: Vec<u8> = Vec::new();
        let shifted: i128 = self.created_at as i128 + 0x8000_0000_0000_0000i128;
        push_be64(&mut out, shifted as u64);
        push_be64(&mut out, self.owner.len() as u64);
        push_be64(&mut out, self.embedding.len() as u64);
        push_be64(&mut out, self.angles.len() as u64);
        assert(out@ =~= head(self@));
        extend(&mut out, self.owner.as_slice());
        extend(&mut out, self.embedding.as_slice());
        let ghost fixed = out@;
        let mut i: usize = 0;
        assert(angle_bytes(self.angles@.take(0)) =~= Seq::<u8>::empty());
        while i < self.angles.len()
            invariant
                i <= self.angles.len(),
                fixed == head(self@) + self.owner@ + self.embedding@,
                out@ == fixed + angle_bytes(self.angles@.take(i as int)),
            decreases self.angles.len() - i,
        {
            let a = self.angles[i];
            let ghost before = out@;
            push_be64(&mut out, (a.angle as i64 + 0x8000_0000i64) as u64);
            push_be64(&mut out, a.quality_score as u64);
            proof {
                lemma_angle_bytes_grow(self.angles@, i as int);
                assert(out@ =~= before + angle_record(a));
                assert(out@ =~= fixed + angle_bytes(self.angles@.take(i + 1)));
            }
            i += 1;
        }
        assert(self.angles@.take(self.angles@.len() as int) =~= self.angles@);
        out
    }

    /// Reads a template from its byte form; nothing when `bytes` are not
    /// the byte form of a template.
    pub fn decode(bytes: &[u8]) -> (result: Option<Template>)
        ensures
            match decoded(bytes@) {
                Some(t) => result matches Some(template) && template@ == t,
                None => result is None,
            },
    {
        if bytes.len() < HEAD_LEN {
            return None;
        }
        let time = read_be64(bytes, 0);
        let owner_len = read_be64(bytes, 8);
        let embedding_len = read_be64(bytes, 16);
        let count = read_be64(bytes, 24);
        let total: u128 = HEAD_LEN as u128 + owner_len as u128 + embedding_len as u128
            + ANGLE_LEN as u128 * (count as u128);
        if total != bytes.len() as u128 {
            return None;
        }
        let owner_end: usize = HEAD_LEN + owner_len as usize;
        let base: usize = owner_end + embedding_len as usize;
        let owner = slice_of(bytes, HEAD_LEN, owner_end);
        let embedding = slice_of(bytes, owner_end, base);
        let mut angles: Vec<FaceAngle> = Vec::new();
        let mut k: usize = 0;
        while k < count as usize
            invariant
                k <= count,
                count <= usize::MAX,
                bytes@.len() == base + ANGLE_LEN * count,
                bytes@.len() <= usize::MAX,
                bytes@.len() >= HEAD_LEN,
                base == HEAD_LEN + field(bytes@, 8) + field(bytes@, 16),
                count == field(bytes@, 24),
                angles@.len() == k,
                forall|j: int| 0 <= j < k ==> #[trigger] angle_ok(bytes@, base as int, j),
                forall|j: int| 0 <= j < k ==> angles@[j] == #[trigger] angle_at(bytes@, base as int, j),
            decreases count - k,
        {
            assert(ANGLE_LEN * k + ANGLE_LEN <= ANGLE_LEN * count) by (nonlinear_arith)
                requires
                    k < count,
            ;
            let at: usize = base + ANGLE_LEN * k;
            let angle = read_be64(bytes, at);
            let quality = read_be64(bytes, at + 8);
            if angle > 0xffff_ffff || quality > 0xffff_ffff {
                assert(!angle_ok(bytes@, base as int, k as int));
                return None;
            }
            angles.push(
                FaceAngle {
                    angle: (angle as i64 - 0x8000_0000i64) as i32,
                    quality_score: quality as u32,
                },
            );
            k += 1;
        }
        let created_at: i64 = (time as i128 - 0x8000_0000_0000_0000i128) as i64;
        let template = Template { owner, embedding, angles, created_at };
        proof {
            let t = decoded(bytes@);
            assert(t is Some);
            assert(t->0.angles =~= angles@);
        }
        Some(template)
    }
}

} // verus!
