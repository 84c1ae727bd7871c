use vstd::prelude::*;
use crate::track::{Track, aligned};

verus! {

/// The four little-endian bytes of `x`.
pub open spec fn le_u32(x: u32) -> Seq<u8> {
    seq![x as u8, (x >> 8u32) as u8, (x >> 16u32) as u8, (x >> 24u32) as u8]
}

/// The eight little-endian bytes of `x`.
pub open spec fn le_u64(x: u64) -> Seq<u8> {
    seq![
        x as u8,
        (x >> 8u64) as u8,
        (x >> 16u64) as u8,
        (x >> 24u64) as u8,
        (x >> 32u64) as u8,
        (x >> 40u64) as u8,
        (x >> 48u64) as u8,
        (x >> 56u64) as u8,
    ]
}

/// The items of a channel, four little-endian bytes each.
pub open spec fn words_bytes(c: Seq<u32>) -> Seq<u8> {
    Seq::new(4 * c.len(), |k: int| le_u32(c[k / 4])[k % 4])
}

/// A channel on disk: its length in eight bytes, then its items.
pub open spec fn channel_bytes(c: Seq<u32>) -> Seq<u8> {
    le_u64(c.len() as u64) + words_bytes(c)
}

/// Channels on disk, one after the other.
pub open spec fn channels_bytes(chs: Seq<Seq<u32>>) -> Seq<u8>
    decreases chs.len(),
{
    if chs.len() == 0 {
        Seq::empty()
    } else {
        channel_bytes(chs[0]) + channels_bytes(chs.drop_first())
    }
}

/// `p` is the start of `s`.
pub open spec fn is_prefix(p: Seq<u8>, s: Seq<u8>) -> bool {
    p.len() <= s.len() && s.subrange(0, p.len() as int) == p
}

/// `bytes` starts with the encoding of the four channels `chs`.
pub open spec fn decodes_to(bytes: Seq<u8>, chs: Seq<Seq<u32>>) -> bool {
    chs.len() == 4 && is_prefix(channels_bytes(chs), bytes)
}

/// The view of four channel vectors.
pub open spec fn channel_seqs(chs: &[Vec<u32>; 4]) -> Seq<Seq<u32>> {
    seq![chs[0]@, chs[1]@, chs[2]@, chs[3]@]
}

/// bincode's error kind, carried as an opaque value and mapped to `CodecError`.
#[verifier::external_type_specification]
#[verifier::external_body]
pub struct ExErrorKind(bincode::ErrorKind);

/// Relies on bincode::serialize, whose default options write a sequence as its
/// length in eight little-endian bytes followed by its items, a `u32` in four
/// little-endian bytes, and an array as its items with no length. With no size
/// limit, sequences of known length and a vector as output, it cannot fail here.
#[verifier::external_body]
fn serialize_channels(chs: &[Vec<u32>; 4]) -> (r: Result<Vec<u8>, Box<bincode::ErrorKind>>)
    ensures
        r is Ok,
        r matches Ok(b) ==> b@ == channels_bytes(channel_seqs(chs)),
{
    bincode::serialize(chs)
}

/// Relies on bincode::deserialize, which with its default options reads the
/// layout that bincode::serialize writes from the start of `bytes`, accepts
/// trailing bytes, and fails only when the bytes run out first.
#[verifier::external_body]
fn deserialize_channels(bytes: &[u8]) -> (r: Result<[Vec<u32>; 4], Box<bincode::ErrorKind>>)
    ensures
        r matches Ok(chs) ==> decodes_to(bytes@, channel_seqs(&chs)),
        r is Err ==> !exists|chs: Seq<Seq<u32>>| decodes_to(bytes@, chs),
{
    bincode::deserialize(bytes)
}

/// Why bytes could not be read back as a track.
#[derive(Clone, Copy, Debug, PartialEq, Eq, Structural)]
pub enum CodecError {
    /// The bytes do not hold four encoded channels.
    Malformed,
    /// Four channels were read but their lengths differ.
    UnequalChannels,
    /// The encoder reported a failure; `encode_track` never returns it.
    EncodeFailed,
}

/// The bytes of a track: its four channels of masks.
pub fn encode_track(t: &Track) -> (r: Result<Vec<u8>, CodecError>)
    ensures
        r is Ok,
        r matches Ok(b) ==> b@ == channels_bytes(t@),
{
    let chs = t.to_masks();
    match serialize_channels(&chs) {
        Ok(b) => {
            assert(channel_seqs(&chs) =~= t@);
            Ok(b)
        },
        Err(_) => Err(CodecError::EncodeFailed),
    }
}

/// The track at the start of `bytes`.
pub fn decode_track(bytes: &[u8]) -> (r: Result<Track, CodecError>)
    ensures
        r matches Ok(t) ==> decodes_to(bytes@, t@) && aligned(t@),
        r is Ok <==> exists|chs: Seq<Seq<u32>>| decodes_to(bytes@, chs) && aligned(chs),
        r == Err::<Track, CodecError>(CodecError::Malformed) <==> !exists|chs: Seq<Seq<u32>>|
            decodes_to(bytes@, chs),
        r is Err ==> r == Err::<Track, CodecError>(CodecError::Malformed) || r == Err::<
            Track,
            CodecError,
        >(CodecError::UnequalChannels),
{
    assert(bytes@.len() == bytes.len());
    match deserialize_channels(bytes) {
        Ok(chs) => {
            let ghost got = channel_seqs(&chs);
            proof {
                assert forall|other: Seq<Seq<u32>>| decodes_to(bytes@, other) implies other
                    == got by {
                    lemma_decode_unique(other, got, bytes@);
                }
            }
            match Track::from_masks(&chs) {
                Some(t) => {
                    assert(t@ =~= got);
                    Ok(t)
                },
                None => {
                    assert(!aligned(got));
                    Err(CodecError::UnequalChannels)
                },
            }
        },
        Err(_) => Err(CodecError::Malformed),
    }
}

proof fn lemma_le_u64_injective(x: u64, y: u64)
    requires
        le_u64(x) == le_u64(y),
    ensures
        x == y,
{
    assert(le_u64(x)[0] == le_u64(y)[0] && le_u64(x)[1] == le_u64(y)[1] && le_u64(x)[2] == le_u64(
        y,
    )[2] && le_u64(x)[3] == le_u64(y)[3]);
    assert(le_u64(x)[4] == le_u64(y)[4] && le_u64(x)[5] == le_u64(y)[5] && le_u64(x)[6] == le_u64(
        y,
    )[6] && le_u64(x)[7] == le_u64(y)[7]);
    assert(x == y) by (bit_vector)
        requires
            x as u8 == y as u8,
            (x >> 8u64) as u8 == (y >> 8u64) as u8,
            (x >> 16u64) as u8 == (y >> 16u64) as u8,
            (x >> 24u64) as u8 == (y >> 24u64) as u8,
            (x >> 32u64) as u8 == (y >> 32u64) as u8,
            (x >> 40u64) as u8 == (y >> 40u64) as u8,
            (x >> 48u64) as u8 == (y >> 48u64) as u8,
            (x >> 56u64) as u8 == (y >> 56u64) as u8,
    ;
}

proof fn lemma_le_u32_injective(x: u32, y: u32)
    requires
        le_u32(x) == le_u32(y),
    ensures
        x == y,
{
    assert(le_u32(x)[0] == le_u32(y)[0] && le_u32(x)[1] == le_u32(y)[1] && le_u32(x)[2] == le_u32(
        y,
    )[2] && le_u32(x)[3] == le_u32(y)[3]);
    assert(x == y) by (bit_vector)
        requires
            x as u8 == y as u8,
            (x >> 8u32) as u8 == (y >> 8u32) as u8,
            (x >> 16u32) as u8 == (y >> 16u32) as u8,
            (x >> 24u32) as u8 == (y >> 24u32) as u8,
    ;
}

/// Two channels whose encodings both start `s` are equal.
proof fn lemma_channel_unique(a: Seq<u32>, b: Seq<u32>, s: Seq<u8>)
    requires
        is_prefix(channel_bytes(a), s),
        is_prefix(channel_bytes(b), s),
        s.len() <= u64::MAX,
    ensures
        a == b,
{
    let la = channel_bytes(a);
    let lb = channel_bytes(b);
    assert(le_u64(a.len() as u64) =~= s.subrange(0, 8)) by {
        assert forall|k: int| 0 <= k < 8 implies #[trigger] le_u64(a.len() as u64)[k] == s[k] by {
            assert(la[k] == s.subrange(0, la.len() as int)[k]);
        }
    }
    assert(le_u64(b.len() as u64) =~= s.subrange(0, 8)) by {
        assert forall|k: int| 0 <= k < 8 implies #[trigger] le_u64(b.len() as u64)[k] == s[k] by {
            assert(lb[k] == s.subrange(0, lb.len() as int)[k]);
        }
    }
    lemma_le_u64_injective(a.len() as u64, b.len() as u64);
    assert(a.len() == b.len());
    assert forall|i: int| 0 <= i < a.len() implies a[i] == b[i] by {
        assert forall|j: int| 0 <= j < 4 implies #[trigger] le_u32(a[i])[j] == le_u32(b[i])[j] by {
            let k = 4 * i + j;
            assert(k / 4 == i && k % 4 == j) by (nonlinear_arith)
                requires
                    k == 4 * i + j,
                    0 <= j < 4,
            ;
            assert(0 <= k < 4 * a.len()) by (nonlinear_arith)
                requires
                    k == 4 * i + j,
                    0 <= j < 4,
                    0 <= i < a.len(),
            ;
            assert(words_bytes(a)[k] == la[8 + k]);
            assert(words_bytes(b)[k] == lb[8 + k]);
            assert(la[8 + k] == s.subrange(0, la.len() as int)[8 + k]);
            assert(lb[8 + k] == s.subrange(0, lb.len() as int)[8 + k]);
        }
        assert(le_u32(a[i]) =~= le_u32(b[i]));
        lemma_le_u32_injective(a[i], b[i]);
    }
    assert(a =~= b);
}

/// Two lists of channels of one count whose encodings both start `s` are equal.
proof fn lemma_channels_unique(a: Seq<Seq<u32>>, b: Seq<Seq<u32>>, s: Seq<u8>)
    requires
        a.len() == b.len(),
        is_prefix(channels_bytes(a), s),
        is_prefix(channels_bytes(b), s),
        s.len() <= u64::MAX,
    ensures
        a == b,
    decreases a.len(),
{
    if a.len() > 0 {
        let ha = channel_bytes(a[0]);
        let hb = channel_bytes(b[0]);
        let ra = channels_bytes(a.drop_first());
        let rb = channels_bytes(b.drop_first());
        assert(channels_bytes(a) == ha + ra);
        assert(channels_bytes(b) == hb + rb);
        assert(s.subrange(0, ha.len() as int) =~= (ha + ra).subrange(0, ha.len() as int));
        assert(s.subrange(0, hb.len() as int) =~= (hb + rb).subrange(0, hb.len() as int));
        assert((ha + ra).subrange(0, ha.len() as int) =~= ha);
        assert((hb + rb).subrange(0, hb.len() as int) =~= hb);
        lemma_channel_unique(a[0], b[0], s);
        let rest = s.subrange(ha.len() as int, s.len() as int);
        let pa = channels_bytes(a);
        let pb = channels_bytes(b);
        assert forall|k: int| 0 <= k < ra.len() implies #[trigger] rest[k] == ra[k] by {
            assert(s[ha.len() + k] == s.subrange(0, pa.len() as int)[ha.len() + k]);
            assert(pa[ha.len() + k] == ra[k]);
        }
        assert forall|k: int| 0 <= k < rb.len() implies #[trigger] rest[k] == rb[k] by {
            assert(s[hb.len() + k] == s.subrange(0, pb.len() as int)[hb.len() + k]);
            assert(pb[hb.len() + k] == rb[k]);
        }
        assert(rest.subrange(0, ra.len() as int) =~= ra);
        assert(rest.subrange(0, rb.len() as int) =~= rb);
        lemma_channels_unique(a.drop_first(), b.drop_first(), rest);
        assert forall|i: int| 0 <= i < a.len() implies a[i] == b[i] by {
            if i > 0 {
                assert(a[i] == a.drop_first()[i - 1]);
                assert(b[i] == b.drop_first()[i - 1]);
            }
        }
        assert(a =~= b);
    }
}

/// At most one list of four channels is encoded at the start of `s`.
proof fn lemma_decode_unique(a: Seq<Seq<u32>>, b: Seq<Seq<u32>>, s: Seq<u8>)
    requires
        decodes_to(s, a),
        decodes_to(s, b),
        s.len() <= u64::MAX,
    ensures
        a == b,
{
    lemma_channels_unique(a, b, s);
}

/// Reading back the bytes of a track gives that track, whatever follows them:
/// the encoding of `t` starts the bytes, and no other channels' encoding does.
pub proof fn lemma_round_trip(t: Seq<Seq<u32>>, rest: Seq<u8>, other: Seq<Seq<u32>>)
    requires
        aligned(t),
        channels_bytes(t).len() + rest.len() <= u64::MAX,
    ensures
        decodes_to(channels_bytes(t) + rest, t),
        decodes_to(channels_bytes(t) + rest, other) ==> other == t,
{
    let s = channels_bytes(t) + rest;
    assert(s.subrange(0, channels_bytes(t).len() as int) =~= channels_bytes(t));
    if decodes_to(s, other) {
        lemma_decode_unique(other, t, s);
    }
}

} // verus!
