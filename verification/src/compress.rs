use flate2::write::DeflateEncoder;
use flate2::Compression;
use std::io::Write;
use vstd::prelude::*;

verus! {

/// Holds flate2's raw DEFLATE encoder writing into a `Vec<u8>`. Verus
/// refuses to declare `DeflateEncoder` itself (its bound `std::io::Write`
/// is not a trait Verus knows), so the encoder sits in this opaque holder.
#[verifier::external_body]
pub struct Deflater {
    encoder: DeflateEncoder<Vec<u8>>,
}

/// The raw DEFLATE stream that flate2 emits at compression `level` when the
/// input is written as the byte chunks `chunks`, in order, and the encoder
/// is then finished. Deterministic: it depends on these arguments alone.
pub uninterp spec fn deflate_output(level: u32, chunks: Seq<Seq<u8>>) -> Seq<u8>;

/// The chunks written so far into an encoder, in order.
pub uninterp spec fn deflate_written(e: Deflater) -> Seq<Seq<u8>>;

/// The compression level an encoder was made with.
pub uninterp spec fn deflate_level(e: Deflater) -> u32;

/// `DeflateEncoder::new(Vec::new(), Compression::new(level))`: a fresh
/// encoder with nothing written, remembering `level`. flate2's miniz_oxide
/// backend debug-asserts `level <= 10`, hence the `requires`.
#[verifier::external_body]
pub(crate) fn deflate_encoder_new(level: u32) -> (e: Deflater)
    requires
        level <= 10,
    ensures
        deflate_level(e) == level,
        deflate_written(e) == Seq::<Seq<u8>>::empty(),
{
    Deflater { encoder: DeflateEncoder::new(Vec::new(), Compression::new(level)) }
}

/// `Write::write_all` on the encoder: records `data` as the next chunk of
/// input. The sink is an in-memory `Vec<u8>`, whose `write` never fails, and
/// the backend reports an error only for a corrupt stream state, which a
/// fresh encoder that has not been finished does not have; so the `unwrap`
/// does not fire.
#[verifier::external_body]
pub(crate) fn deflate_write_all(e: &mut Deflater, data: &[u8])
    ensures
        deflate_level(*final(e)) == deflate_level(*old(e)),
        deflate_written(*final(e)) == deflate_written(*old(e)).push(data@),
{
    e.encoder.write_all(data).unwrap()
}

/// `DeflateEncoder::finish`: closes the stream and hands back the bytes,
/// which are `deflate_output` of the level and the chunks written. Errors
/// could only come from the `Vec<u8>` sink, which never fails.
#[verifier::external_body]
pub(crate) fn deflate_finish(e: Deflater) -> (out: Vec<u8>)
    ensures
        out@ == deflate_output(deflate_level(e), deflate_written(e)),
{
    e.encoder.finish().unwrap()
}

} // verus!
