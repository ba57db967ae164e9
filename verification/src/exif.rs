//! Keeping a photo's EXIF metadata when it is written again as JPEG: the
//! first APP1 segment of the source file is placed into the new file as
//! its second segment.
use vstd::prelude::*;
use img_parts::jpeg::{Jpeg, JpegSegment};

verus! {

/// A JPEG file as `img_parts` holds it: its segments up to the first scan.
#[verifier::external_type_specification]
#[verifier::external_body]
pub struct ExJpeg(Jpeg);

/// One segment of a JPEG file.
#[verifier::external_type_specification]
#[verifier::external_body]
pub struct ExJpegSegment(JpegSegment);

/// A segment as plain values: its marker byte, its contents and its
/// entropy-coded data.
pub type SegmentParts = (u8, Seq<u8>, Seq<u8>);

/// The segments that a `Jpeg` holds, in file order.
pub uninterp spec fn jpeg_parts(j: Jpeg) -> Seq<SegmentParts>;

/// What a `JpegSegment` holds.
pub uninterp spec fn segment_parts(s: JpegSegment) -> SegmentParts;

/// The segments that `Jpeg::from_bytes` reads from a file, or `None` where
/// it reports an error (wrong signature, truncated or corrupt data).
pub uninterp spec fn parsed_jpeg(bytes: Seq<u8>) -> Option<Seq<SegmentParts>>;

/// The file that a `Jpeg` with the given segments encodes to.
pub uninterp spec fn encoded_jpeg(parts: Seq<SegmentParts>) -> Seq<u8>;

/// The most contents a segment can hold: its 16-bit length field counts
/// itself too.
pub open spec fn contents_fit(parts: Seq<SegmentParts>) -> bool {
    forall|i: int| 0 <= i < parts.len() ==> (#[trigger] parts[i]).1.len() <= 65533
}

/// `img_parts::jpeg::Jpeg::from_bytes`: reads the segments of a JPEG file.
/// A segment's contents are cut by its 16-bit length field (which counts
/// itself), so none is longer than 65533 bytes.
#[verifier::external_body]
fn jpeg_from_bytes(bytes: &Vec<u8>) -> (r: Option<Jpeg>)
    ensures
        match r {
            Some(j) => parsed_jpeg(bytes@) == Some(jpeg_parts(j)) && contents_fit(jpeg_parts(j)),
            None => parsed_jpeg(bytes@) is None,
        },
{
    Jpeg::from_bytes(img_parts::Bytes::from(bytes.clone())).ok()
}

/// `Jpeg::segments().len()`: the number of segments.
#[verifier::external_body]
fn jpeg_segment_count(j: &Jpeg) -> (n: usize)
    ensures
        n == jpeg_parts(*j).len(),
{
    j.segments().len()
}

/// `JpegSegment::marker` of segment `i`.
#[verifier::external_body]
fn jpeg_segment_marker(j: &Jpeg, i: usize) -> (m: u8)
    requires
        i < jpeg_parts(*j).len(),
    ensures
        m == jpeg_parts(*j)[i as int].0,
{
    j.segments()[i].marker()
}

/// `JpegSegment::clone` of segment `i`: a segment holding the same.
#[verifier::external_body]
fn jpeg_segment_at(j: &Jpeg, i: usize) -> (s: JpegSegment)
    requires
        i < jpeg_parts(*j).len(),
    ensures
        segment_parts(s) == jpeg_parts(*j)[i as int],
{
    j.segments()[i].clone()
}

/// `Vec::insert` on `Jpeg::segments_mut`: puts a segment at position `i`.
#[verifier::external_body]
fn jpeg_insert_segment(j: &mut Jpeg, i: usize, s: JpegSegment)
    requires
        i <= jpeg_parts(*old(j)).len(),
    ensures
        jpeg_parts(*final(j)) == jpeg_parts(*old(j)).insert(i as int, segment_parts(s)),
{
    j.segments_mut().insert(i, s);
}

/// `Jpeg::encoder().bytes()`: the encoded file. Encoding writes each
/// segment's length as 16 bits, which the contents must fit.
#[verifier::external_body]
fn jpeg_encode(j: Jpeg) -> (b: Vec<u8>)
    requires
        contents_fit(jpeg_parts(j)),
    ensures
        b@ == encoded_jpeg(jpeg_parts(j)),
{
    j.encoder().bytes().to_vec()
}

/// The marker of APP1, the segment that carries EXIF data.
pub const APP1: u8 = 0xE1;

/// Segments with the APP1 marker.
pub open spec fn is_app1() -> spec_fn(SegmentParts) -> bool {
    |s: SegmentParts| s.0 == APP1
}

/// The file `output` with the first APP1 segment of `input` placed as its
/// second segment; `output` unchanged where `input` is no JPEG, has no
/// APP1 segment, or `output` is no JPEG.
pub open spec fn exif_kept(input: Seq<u8>, output: Seq<u8>) -> Seq<u8> {
    match parsed_jpeg(input) {
        Some(ins) => match crate::text::first_where(ins, is_app1()) {
            Some(k) => match parsed_jpeg(output) {
                Some(outs) => encoded_jpeg(outs.insert(1, ins[k])),
                None => output,
            },
            None => output,
        },
        None => output,
    }
}

/// The new file has a segment before which the carried segment can go.
pub open spec fn output_can_take_segment(output: Seq<u8>) -> bool {
    parsed_jpeg(output) matches Some(outs) ==> outs.len() >= 1
}

fn first_app1(j: &Jpeg) -> (r: Option<usize>)
    ensures
        match r {
            Some(k) => k < jpeg_parts(*j).len() && crate::text::first_where(jpeg_parts(*j), is_app1())
                == Some(k as int),
            None => crate::text::first_where(jpeg_parts(*j), is_app1()) is None,
        },
{
    let ghost parts = jpeg_parts(*j);
    let ghost p = is_app1();
    let n = jpeg_segment_count(j);
    for i in 0..n
        invariant
            n == parts.len(),
            parts == jpeg_parts(*j),
            p == is_app1(),
            forall|k: int| 0 <= k < i ==> !p(#[trigger] parts[k]),
    {
        if jpeg_segment_marker(j, i) == APP1 {
            proof {
                crate::text::lemma_first_where_found(parts, p, i as int);
            }
            return Some(i);
        }
    }
    proof {
        crate::text::lemma_first_where_none(parts, p);
    }
    None
}

/// Writes `output` (a freshly encoded JPEG) with the EXIF segment of
/// `input` (the source photo) carried over.
pub fn preserve_jpeg_exif(input: &Vec<u8>, output: Vec<u8>) -> (r: Vec<u8>)
    requires
        output_can_take_segment(output@),
    ensures
        r@ == exif_kept(input@, output@),
{
    match jpeg_from_bytes(input) {
        None => output,
        Some(inj) => match first_app1(&inj) {
            None => output,
            Some(k) => {
                let seg = jpeg_segment_at(&inj, k);
                match jpeg_from_bytes(&output) {
                    None => output,
                    Some(outj) => {
                        let mut outj = outj;
                        proof {
                            assert(contents_fit(jpeg_parts(inj)));
                            assert(segment_parts(seg).1.len() <= 65533);
                        }
                        jpeg_insert_segment(&mut outj, 1, seg);
                        proof {
                            let parts = jpeg_parts(outj);
                            assert forall|i: int| 0 <= i < parts.len() implies (#[trigger] parts[i]).1.len()
                                <= 65533 by {
                                if i > 1 {
                                    assert(parts[i] == parsed_jpeg(output@).unwrap()[i - 1]);
                                } else if i < 1 {
                                    assert(parts[i] == parsed_jpeg(output@).unwrap()[i]);
                                }
                            }
                        }
                        jpeg_encode(outj)
                    },
                }
            },
        },
    }
}

/// Carries the EXIF segment over where `output` has a segment to put it
/// after; `None` where `output` is a JPEG without any segment.
pub fn preserve_jpeg_exif_checked(input: &Vec<u8>, output: Vec<u8>) -> (r: Option<Vec<u8>>)
    ensures
        match r {
            Some(b) => output_can_take_segment(output@) && b@ == exif_kept(input@, output@),
            None => !output_can_take_segment(output@),
        },
{
    match jpeg_from_bytes(&output) {
        Some(outj) => {
            if jpeg_segment_count(&outj) == 0 {
                return None;
            }
        },
        None => {},
    }
    Some(preserve_jpeg_exif(input, output))
}

} // verus!
