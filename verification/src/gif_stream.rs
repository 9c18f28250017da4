//! The GIF encoder that exports are written with, and the colour table of a frame.
use vstd::prelude::*;

verus! {

/// The error of the encoder, `gif::EncodingError`.
#[verifier::external_type_specification]
#[verifier::external_body]
pub struct ExEncodingError(gif::EncodingError);

/// An encoder that collects the bytes of a GIF in memory: `gif::Encoder` over a vector.
#[verifier::external_body]
pub struct GifStream {
    encoder: gif::Encoder<Vec<u8>>,
}

/// The bytes that a stream holds.
pub uninterp spec fn stream_bytes(s: GifStream) -> Seq<u8>;

/// The bytes that a frame takes up in a stream.
pub uninterp spec fn frame_bytes(width: u16, height: u16, delay: u16, palette: Seq<u8>, indices: Seq<u8>) -> Seq<u8>;

/// The colour table that a picture is reduced to, and the entry of each pixel in it.
pub uninterp spec fn reduced(width: u16, height: u16, rgb: Seq<u8>) -> (Seq<u8>, Seq<u8>);

/// The bytes that open a stream: signature, size, and a global colour table of two black
/// entries that no frame uses.
pub open spec fn opening(width: u16, height: u16) -> Seq<u8> {
    seq![
        0x47u8,
        0x49u8,
        0x46u8,
        0x38u8,
        0x39u8,
        0x61u8,
        (width % 256) as u8,
        (width / 256) as u8,
        (height % 256) as u8,
        (height / 256) as u8,
        0x80u8,
        0u8,
        0u8,
        0u8,
        0u8,
        0u8,
        0u8,
        0u8,
        0u8,
    ]
}

/// The block that makes a player repeat the frames forever.
pub open spec fn repeat_block() -> Seq<u8> {
    seq![
        0x21u8,
        0xffu8,
        0x0bu8,
        0x4eu8,
        0x45u8,
        0x54u8,
        0x53u8,
        0x43u8,
        0x41u8,
        0x50u8,
        0x45u8,
        0x32u8,
        0x2eu8,
        0x30u8,
        0x03u8,
        0x01u8,
        0u8,
        0u8,
        0u8,
    ]
}

/// Starts a stream: `gif::Encoder::new` with an empty global palette writes the opening
/// bytes and nothing else. It fails only where the writer does, and a vector takes all bytes.
#[verifier::external_body]
pub(crate) fn start_stream(width: u16, height: u16) -> (r: Result<GifStream, gif::EncodingError>)
    ensures
        r is Ok,
        r matches Ok(s) ==> stream_bytes(s) == opening(width, height),
{
    Ok(GifStream { encoder: gif::Encoder::new(Vec::new(), width, height, &[])? })
}

/// Makes the animation repeat: `Encoder::set_repeat` with `Repeat::Infinite` appends the
/// application block that says so. It fails only where the writer does.
#[verifier::external_body]
pub(crate) fn repeat_forever(s: &mut GifStream) -> (r: Result<(), gif::EncodingError>)
    ensures
        r is Ok,
        stream_bytes(*final(s)) == stream_bytes(*old(s)) + repeat_block(),
{
    s.encoder.set_repeat(gif::Repeat::Infinite)
}

/// Appends a frame, put together by `gif::Frame::from_palette_pixels`: `Encoder::write_frame`.
/// What it appends depends on the size, the delay, the palette and the indices alone. It fails
/// only where it cannot reserve a byte for every four pixels to compress into, so that a picture
/// of less than four pixels never fails. When memory is short for a larger one, and what the
/// stream then holds, is not said.
#[verifier::external_body]
pub(crate) fn append_frame(
    s: &mut GifStream,
    width: u16,
    height: u16,
    delay: u16,
    palette: Vec<u8>,
    indices: Vec<u8>,
) -> (r: Result<(), gif::EncodingError>)
    requires
        indices@.len() == width * height,
        palette@.len() <= 768,
    ensures
        width * height < 4 ==> r is Ok,
        r is Ok ==> stream_bytes(*final(s)) == stream_bytes(*old(s)) + frame_bytes(
            width,
            height,
            delay,
            palette@,
            indices@,
        ),
{
    let mut frame = gif::Frame::from_palette_pixels(width, height, indices, palette, None);
    frame.delay = delay;
    s.encoder.write_frame(&frame)
}

/// Takes the bytes out of a stream, through `Encoder::get_mut`; the stream goes on from
/// there with none.
#[verifier::external_body]
pub(crate) fn take_bytes(s: &mut GifStream) -> (r: Vec<u8>)
    ensures
        r@ == stream_bytes(*old(s)),
        stream_bytes(*final(s)) == Seq::<u8>::empty(),
{
    std::mem::take(s.encoder.get_mut())
}

/// Ends a stream: `Encoder::into_inner` appends the trailer byte and hands out the bytes. It
/// fails only where the writer does.
#[verifier::external_body]
pub(crate) fn end_stream(s: GifStream) -> (r: Result<Vec<u8>, gif::EncodingError>)
    ensures
        r is Ok,
        r matches Ok(bytes) ==> bytes@ == stream_bytes(s).push(0x3bu8),
{
    Ok(s.encoder.into_inner()?)
}

/// The text of an encoder error, by its `Display`.
#[verifier::external_body]
pub(crate) fn error_text(e: gif::EncodingError) -> (r: String) {
    format!("{}", e)
}

/// The colour of pixel `p` of an RGB picture.
pub open spec fn pixel(rgb: Seq<u8>, p: int) -> (u8, u8, u8) {
    (rgb[3 * p], rgb[3 * p + 1], rgb[3 * p + 2])
}

/// Whether a picture has at most 256 colours.
pub open spec fn has_few_colours(rgb: Seq<u8>) -> bool {
    exists|colours: Seq<(u8, u8, u8)>|
        colours.len() <= 256 && forall|p: int|
            0 <= p < rgb.len() / 3 ==> colours.contains(#[trigger] pixel(rgb, p))
}

/// A picture of indices into a colour table.
pub struct IndexedFrame {
    pub palette: Vec<u8>,
    pub indices: Vec<u8>,
}

/// Reduces a picture to a colour table of at most 256 entries: `gif::Frame::from_rgb`, of
/// which the palette and the buffer are kept. Every index is an entry of the table, and a
/// picture of at most 256 colours keeps each of them exactly.
#[verifier::external_body]
pub(crate) fn reduce_colours(width: u16, height: u16, rgb: &[u8]) -> (r: IndexedFrame)
    requires
        rgb@.len() == width * height * 3,
    ensures
        (r.palette@, r.indices@) == reduced(width, height, rgb@),
        r.indices@.len() == width * height,
        r.palette@.len() <= 768,
        forall|p: int| 0 <= p < r.indices@.len() ==> 3 * (#[trigger] r.indices@[p]) + 2 < r.palette@.len(),
        has_few_colours(rgb@) ==> forall|p: int|
            0 <= p < r.indices@.len() ==> pixel(r.palette@, (#[trigger] r.indices@[p]) as int) == pixel(rgb@, p),
{
    let frame = gif::Frame::from_rgb(width, height, rgb);
    IndexedFrame { palette: frame.palette.unwrap_or_default(), indices: frame.buffer.into_owned() }
}

} // verus!
