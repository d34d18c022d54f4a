//! The AD tokenizer: splits a raw advertisement payload into the sequence
//! of length-prefixed, type-tagged elements it holds, stopping cleanly at
//! the first malformed element instead of failing.

use vstd::prelude::*;
use vstd::slice::slice_subrange;
use vstd::slice::slice_to_vec;

use crate::ad::ADStructure;
use crate::ad::ADType;
use crate::ad::AdView;
use crate::ad::ad_type_of;
use crate::ad::code_of;
use crate::ad::wf_ad;

verus! {

/// The elements found from position `i` on: each iteration reads a length
/// byte `l` at the cursor, stops if `l` is zero or the declared element
/// would reach the end of the buffer or beyond, and otherwise takes the
/// type byte and the `l - 1` payload bytes that follow and moves the
/// cursor past the element.
pub open spec fn spec_parse_ad_from(data: Seq<u8>, i: int) -> Seq<AdView>
    decreases data.len() - i,
{
    if i < 0 || i >= data.len() {
        Seq::empty()
    } else {
        let l = data[i] as int;
        if l == 0 || i + l >= data.len() {
            Seq::empty()
        } else {
            seq![
                AdView {
                    ad_type: ad_type_of(data[i + 1]),
                    data: data.subrange(i + 2, i + 1 + l),
                },
            ] + spec_parse_ad_from(data, i + l + 1)
        }
    }
}

/// The sequence of elements a buffer holds, in buffer order.
pub open spec fn spec_parse_ad(data: Seq<u8>) -> Seq<AdView> {
    spec_parse_ad_from(data, 0)
}

/// Tokenizes a raw advertisement payload into its AD structures, in the
/// left-to-right order they stand in the buffer. Total: any buffer is
/// accepted, and malformed trailing bytes only truncate the result.
pub fn parse_ad(data: &[u8]) -> (structures: Vec<ADStructure>)
    ensures
        structures@.map_values(|s: ADStructure| s@) == spec_parse_ad(data@),
{
    let mut structures: Vec<ADStructure> = Vec::new();
    let mut i: usize = 0;

    assert(structures@.map_values(|s: ADStructure| s@) + spec_parse_ad_from(data@, 0)
        =~= spec_parse_ad(data@));

    while i < data.len()
        invariant
            i <= data@.len(),
            spec_parse_ad(data@) == structures@.map_values(|s: ADStructure| s@)
                + spec_parse_ad_from(data@, i as int),
        ensures
            spec_parse_ad(data@) == structures@.map_values(|s: ADStructure| s@),
        decreases data@.len() - i,
    {
        // first byte contains the length
        let l = data[i] as usize;
        if l == 0 || data.len() - i <= l {
            // a length of 0, or a length that reaches the end of the buffer
            // or beyond, indicates a malformed packet
            proof {
                assert(spec_parse_ad_from(data@, i as int) =~= Seq::<AdView>::empty());
                assert(structures@.map_values(|s: ADStructure| s@)
                    + spec_parse_ad_from(data@, i as int)
                    =~= structures@.map_values(|s: ADStructure| s@));
            }
            break;
        }

        // second byte contains the advertisement data type
        let t = match data[i + 1] {
            0x01 => ADType::Flags,
            0x03 => ADType::ServiceClassUUIDs,
            0x08 => ADType::ShortendLocalName,
            0x09 => ADType::CompleteLocalName,
            other => ADType::Unknown(other),
        };
        assert(t == ad_type_of(data@[i + 1]));

        // the rest of the element contains the actual payload
        let d = slice_to_vec(slice_subrange(data, i + 2, i + 1 + l));

        let ghost before = structures@;
        let element = ADStructure { ad_type: t, data: d };
        let ghost element_view = element@;
        structures.push(element);

        proof {
            assert(spec_parse_ad_from(data@, i as int) == seq![element_view]
                + spec_parse_ad_from(data@, i + l + 1));
            assert(structures@.map_values(|s: ADStructure| s@)
                =~= before.map_values(|s: ADStructure| s@).push(element_view));
            assert(before.map_values(|s: ADStructure| s@).push(element_view)
                + spec_parse_ad_from(data@, i + l + 1)
                =~= before.map_values(|s: ADStructure| s@)
                    + spec_parse_ad_from(data@, i as int));
        }

        i += l + 1;
    }

    structures
}

/// The wire image of one element: its length byte (payload plus the type
/// byte), its type code, then its payload.
pub open spec fn encode_ad(v: AdView) -> Seq<u8> {
    seq![(v.data.len() + 1) as u8, code_of(v.ad_type)] + v.data
}

/// The wire image of a sequence of elements, laid end to end.
pub open spec fn encode_ads(s: Seq<AdView>) -> Seq<u8>
    decreases s.len(),
{
    if s.len() == 0 {
        Seq::empty()
    } else {
        encode_ad(s[0]) + encode_ads(s.drop_first())
    }
}

/// The scan of a buffer whose remainder from position `i` on is the wire
/// image of `s` followed by `tail`, where `tail` is empty or opens with a
/// zero length byte, yields exactly `s`.
proof fn lemma_parse_encode_from(data: Seq<u8>, i: int, s: Seq<AdView>, tail: Seq<u8>)
    requires
        0 <= i <= data.len(),
        data.skip(i) == encode_ads(s) + tail,
        forall|k: int| 0 <= k < s.len() ==> wf_ad(#[trigger] s[k]),
        tail.len() == 0 || tail[0] == 0,
    ensures
        spec_parse_ad_from(data, i) == s,
    decreases s.len(),
{
    if s.len() == 0 {
        assert(data.skip(i) =~= tail);
        if tail.len() == 0 {
            assert(i >= data.len());
        } else {
            assert(data[i] == tail[0]);
        }
        assert(spec_parse_ad_from(data, i) =~= s);
    } else {
        let v = s[0];
        let d = v.data.len() as int;
        let enc = encode_ad(v);
        let rest = encode_ads(s.drop_first());
        assert(wf_ad(v));
        assert(encode_ads(s) == enc + rest);
        assert(enc.len() == 2 + d);
        assert(data.skip(i).len() == data.len() - i);
        assert((encode_ads(s) + tail).len() == (enc.len() + rest.len()) + tail.len());
        assert(data.len() - i == enc.len() + rest.len() + tail.len());
        assert(forall|k: int|
            0 <= k < data.len() - i ==> #[trigger] data.skip(i)[k] == data[i + k]);
        assert(data[i] == ((enc + rest) + tail)[0]);
        assert(((enc + rest) + tail)[0] == enc[0]);
        assert(data[i] == (d + 1) as u8);
        let l = data[i] as int;
        assert(l == d + 1);
        assert(i + l < data.len());
        assert(data[i + 1] == ((enc + rest) + tail)[1]);
        assert(((enc + rest) + tail)[1] == enc[1]);
        assert(ad_type_of(data[i + 1]) == v.ad_type);
        assert forall|k: int| 0 <= k < d implies data.subrange(i + 2, i + 1 + l)[k]
            == v.data[k] by {
            assert(data.skip(i)[2 + k] == data[i + 2 + k]);
            assert(((enc + rest) + tail)[2 + k] == enc[2 + k]);
            assert(enc[2 + k] == v.data[k]);
        }
        assert(data.subrange(i + 2, i + 1 + l) =~= v.data);
        assert forall|k: int| 0 <= k < data.len() - (i + l + 1) implies
            #[trigger] data.skip(i + l + 1)[k] == (rest + tail)[k] by {
            assert(data.skip(i + l + 1)[k] == data[i + l + 1 + k]);
            assert(data.skip(i)[l + 1 + k] == data[i + l + 1 + k]);
            assert(((enc + rest) + tail)[l + 1 + k] == (rest + tail)[k]);
        }
        assert(data.skip(i + l + 1) =~= rest + tail);
        lemma_parse_encode_from(data, i + l + 1, s.drop_first(), tail);
        assert(spec_parse_ad_from(data, i) =~= s);
    }
}

/// Order preservation and completeness: a buffer laid out as the wire
/// image of a sequence of well-formed elements parses back to exactly
/// those elements, in the same left-to-right order.
pub proof fn lemma_parse_encode_ads(s: Seq<AdView>)
    requires
        forall|k: int| 0 <= k < s.len() ==> wf_ad(#[trigger] s[k]),
    ensures
        spec_parse_ad(encode_ads(s)) == s,
{
    let data = encode_ads(s);
    assert(data.skip(0) =~= data + Seq::<u8>::empty());
    lemma_parse_encode_from(data, 0, s, Seq::empty());
}

/// A zero length byte halts the scan: whatever follows it, the result is
/// exactly the elements decoded before it, with nothing after.
pub proof fn lemma_zero_length_halts(s: Seq<AdView>, rest: Seq<u8>)
    requires
        forall|k: int| 0 <= k < s.len() ==> wf_ad(#[trigger] s[k]),
    ensures
        spec_parse_ad(encode_ads(s) + seq![0u8] + rest) == s,
{
    let tail = seq![0u8] + rest;
    let data = encode_ads(s) + seq![0u8] + rest;
    assert(data.skip(0) =~= encode_ads(s) + tail);
    lemma_parse_encode_from(data, 0, s, tail);
}

/// Prefix safety under truncation: the scan of any prefix of a buffer
/// yields a prefix of the scan of the whole buffer, since cutting bytes
/// off the end only truncates the result, never alters earlier elements.
pub proof fn lemma_prefix_safety(data: Seq<u8>, n: int)
    requires
        0 <= n <= data.len(),
    ensures
        spec_parse_ad(data.subrange(0, n)).is_prefix_of(spec_parse_ad(data)),
{
    lemma_prefix_safety_from(data, n, 0);
}

/// The inductive step behind prefix safety, at an arbitrary cursor.
proof fn lemma_prefix_safety_from(data: Seq<u8>, n: int, i: int)
    requires
        0 <= n <= data.len(),
        0 <= i,
    ensures
        spec_parse_ad_from(data.subrange(0, n), i).is_prefix_of(spec_parse_ad_from(data, i)),
    decreases n - i,
{
    let p = data.subrange(0, n);
    if i >= n {
        assert(spec_parse_ad_from(p, i) =~= Seq::<AdView>::empty());
        assert(spec_parse_ad_from(p, i).is_prefix_of(spec_parse_ad_from(data, i)));
    } else {
        let l = p[i] as int;
        assert(p[i] == data[i]);
        if l == 0 || i + l >= n {
            assert(spec_parse_ad_from(p, i) =~= Seq::<AdView>::empty());
            assert(spec_parse_ad_from(p, i).is_prefix_of(spec_parse_ad_from(data, i)));
        } else {
            assert(i + l < data.len());
            assert(p.subrange(i + 2, i + 1 + l) =~= data.subrange(i + 2, i + 1 + l));
            lemma_prefix_safety_from(data, n, i + l + 1);
            let front = seq![
                AdView { ad_type: ad_type_of(data[i + 1]), data: data.subrange(i + 2, i + 1 + l) },
            ];
            let a = spec_parse_ad_from(p, i + l + 1);
            let b = spec_parse_ad_from(data, i + l + 1);
            assert(spec_parse_ad_from(p, i) == front + a);
            assert(spec_parse_ad_from(data, i) == front + b);
            assert((front + a) =~= (front + b).subrange(0, (front + a).len() as int));
        }
    }
}

} // verus!
