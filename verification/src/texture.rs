use image::DynamicImage;
use std::io::Cursor;
use vstd::prelude::*;
use vstd::arithmetic::div_mod::lemma_fundamental_div_mod;
use vstd::arithmetic::div_mod::lemma_fundamental_div_mod_converse;

verus! {

/// The per-pixel component arrangement requested for a texture upload:
/// three 8-bit components, or four with an alpha component.
#[derive(Clone, Copy, PartialEq, Eq, Structural, Debug)]
pub enum Channels {
    Rgb,
    Rgba,
}

impl Channels {
    /// How many bytes one pixel occupies in this layout.
    pub open spec fn spec_bytes_per_pixel(self) -> nat {
        match self {
            Channels::Rgb => 3,
            Channels::Rgba => 4,
        }
    }

    pub fn bytes_per_pixel(self) -> (n: usize)
        ensures
            n == self.spec_bytes_per_pixel(),
    {
        match self {
            Channels::Rgb => 3,
            Channels::Rgba => 4,
        }
    }
}

/// The encodings a texture can be loaded from.
#[derive(Clone, Copy, PartialEq, Eq, Structural, Debug)]
pub enum Format {
    Jpeg,
    Png,
}

impl Format {
    pub open spec fn spec_is_jpeg(self) -> bool {
        self is Jpeg
    }

    pub fn is_jpeg(self) -> (r: bool)
        ensures
            r == self.spec_is_jpeg(),
    {
        match self {
            Format::Jpeg => true,
            Format::Png => false,
        }
    }
}

/// Where the byte at position `i` of a vertically flipped buffer comes from
/// in the original: same column, mirrored row.
pub open spec fn flip_byte_index(i: int, stride: nat, rows: nat) -> int {
    (rows - 1 - i / (stride as int)) * (stride as int) + i % (stride as int)
}

/// A pixel buffer of `rows` rows of `stride` bytes each, with the row order
/// reversed.
pub open spec fn flip_rows(s: Seq<u8>, stride: nat, rows: nat) -> Seq<u8> {
    Seq::new(s.len(), |i: int| s[flip_byte_index(i, stride, rows)])
}

/// Row `r` of a buffer of rows of `stride` bytes.
pub open spec fn row(s: Seq<u8>, stride: nat, r: nat) -> Seq<u8> {
    s.subrange((r * stride) as int, (r * stride + stride) as int)
}

/// A mirrored index stays in range, and mirroring it again gives the
/// original index back.
proof fn lemma_flip_index(i: int, stride: nat, rows: nat)
    requires
        stride > 0,
        0 <= i < stride * rows,
    ensures
        0 <= flip_byte_index(i, stride, rows) < stride * rows,
        flip_byte_index(flip_byte_index(i, stride, rows), stride, rows) == i,
{
    let st = stride as int;
    let q = i / st;
    let m = i % st;
    lemma_fundamental_div_mod(i, st);
    assert(0 <= m < st) by (nonlinear_arith)
        requires
            st > 0,
            0 <= i,
            m == i % st,
    ;
    assert(0 <= q < rows) by (nonlinear_arith)
        requires
            i == st * q + m,
            0 <= m < st,
            0 <= i < st * (rows as int),
            st > 0,
    ;
    let j = flip_byte_index(i, stride, rows);
    assert(j == (rows - 1 - q) * st + m);
    assert(0 <= j < st * (rows as int)) by (nonlinear_arith)
        requires
            j == (rows - 1 - q) * st + m,
            0 <= q < rows,
            0 <= m < st,
            st > 0,
    ;
    lemma_fundamental_div_mod_converse(j, st, rows - 1 - q, m);
    assert(j / st == rows - 1 - q);
    assert(j % st == m);
    assert(flip_byte_index(j, stride, rows) == q * st + m);
    assert(q * st == st * q) by (nonlinear_arith);
}

/// Flipping a buffer of whole rows twice restores the original byte order.
pub proof fn lemma_flip_rows_involutive(s: Seq<u8>, stride: nat, rows: nat)
    requires
        s.len() == stride * rows,
    ensures
        flip_rows(flip_rows(s, stride, rows), stride, rows) == s,
{
    let f = flip_rows(s, stride, rows);
    let g = flip_rows(f, stride, rows);
    if stride == 0 || rows == 0 {
        assert(s.len() == 0) by (nonlinear_arith)
            requires
                s.len() == stride * rows,
                stride == 0 || rows == 0,
        ;
        assert(g =~= s);
    } else {
        assert forall|i: int| 0 <= i < s.len() implies g[i] == s[i] by {
            lemma_flip_index(i, stride, rows);
            lemma_flip_index(flip_byte_index(i, stride, rows), stride, rows);
        }
        assert(g =~= s);
    }
}

/// Row `r` of the flipped buffer is row `rows - 1 - r` of the original: the
/// flip is directional, top row to bottom row.
pub proof fn lemma_flip_rows_reverses(s: Seq<u8>, stride: nat, rows: nat, r: nat)
    requires
        stride > 0,
        s.len() == stride * rows,
        r < rows,
    ensures
        row(flip_rows(s, stride, rows), stride, r) == row(s, stride, (rows - 1 - r) as nat),
{
    let st = stride as int;
    let f = flip_rows(s, stride, rows);
    let m = (rows - 1 - r) as nat;
    assert(r * stride + stride <= stride * rows && m * stride + stride <= stride * rows)
        by (nonlinear_arith)
        requires
            r < rows,
            m == rows - 1 - r,
            stride > 0,
    ;
    let a = row(f, stride, r);
    let b = row(s, stride, m);
    assert forall|k: int| 0 <= k < st implies a[k] == b[k] by {
        let i = r * st + k;
        assert(0 <= i < st * (rows as int)) by (nonlinear_arith)
            requires
                i == r * st + k,
                0 <= k < st,
                r < rows,
                st > 0,
        ;
        lemma_fundamental_div_mod_converse(i, st, r as int, k);
        assert(f[i] == s[flip_byte_index(i, stride, rows)]);
        assert(flip_byte_index(i, stride, rows) == m * st + k);
        assert(a[k] == f[i]);
        assert(b[k] == s[m * st + k]);
    }
    assert(a =~= b);
}

/// Reverse the order of the `rows` rows of `stride` bytes each that make up
/// `pixels`.
#[verifier::loop_isolation(false)]
pub fn flip_vertical(pixels: &Vec<u8>, stride: usize, rows: usize) -> (out: Vec<u8>)
    requires
        pixels@.len() == stride * rows,
    ensures
        out@ == flip_rows(pixels@, stride as nat, rows as nat),
{
    let ghost target = flip_rows(pixels@, stride as nat, rows as nat);
    let n = pixels.len();
    let mut out: Vec<u8> = Vec::new();
    let mut r: usize = 0;
    while r < rows
        invariant
            r <= rows,
            out@.len() == r * stride,
            forall|k: int| 0 <= k < out@.len() ==> out@[k] == target[k],
        decreases rows - r,
    {
        let src_row = rows - 1 - r;
        let mut c: usize = 0;
        proof {
            assert(r * stride <= stride * rows) by (nonlinear_arith)
                requires
                    r < rows,
            ;
        }
        while c < stride
            invariant
                c <= stride,
                out@.len() == r * stride + c,
                forall|k: int| 0 <= k < out@.len() ==> out@[k] == target[k],
            decreases stride - c,
        {
            proof {
                assert(src_row * stride + c < stride * rows && r * stride + c < stride * rows)
                    by (nonlinear_arith)
                    requires
                        src_row == rows - 1 - r,
                        r < rows,
                        0 <= c < stride,
                ;
                assert(src_row * stride + c < n);
                lemma_fundamental_div_mod_converse(
                    r * stride + c,
                    stride as int,
                    r as int,
                    c as int,
                );
                assert(target[r * stride + c] == pixels@[src_row * stride + c]);
            }
            let b = pixels[src_row * stride + c];
            out.push(b);
            c += 1;
        }
        r += 1;
        proof {
            assert(r * stride == (r - 1) * stride + stride) by (nonlinear_arith);
        }
    }
    proof {
        assert(rows * stride == stride * rows) by (nonlinear_arith);
        assert(out@ =~= target);
    }
    out
}

/// Why loading a texture failed.
#[derive(Clone, Copy, PartialEq, Eq, Structural, Debug)]
pub enum TextureError {
    /// The bytes did not decode under the requested format.
    DecodeFailure,
    /// The decoded image does not natively supply the requested channel
    /// layout; no implicit conversion is performed.
    ChannelLayoutMismatch,
}

/// What one decode step hands back: the dimensions, the native pixel kind
/// (`None` when it is neither 8-bit RGB nor 8-bit RGBA), and the raw bytes,
/// row-major starting at the top row.
pub struct DecodedImage {
    pub width: u32,
    pub height: u32,
    pub native: Option<Channels>,
    pub data: Vec<u8>,
}

/// A code for the native pixel kind of a decoded image: its bytes per pixel
/// for the two kinds a texture can be built from, 0 for any other.
pub open spec fn native_code(native: Option<Channels>) -> nat {
    match native {
        Some(c) => c.spec_bytes_per_pixel(),
        None => 0,
    }
}

/// What decoding yields for given encoded bytes under a given format
/// (`jpeg` selects the JPEG decoder, otherwise PNG): `None` when the bytes
/// do not decode; otherwise the width, the height, the native pixel kind's
/// code (3 for 8-bit RGB, 4 for 8-bit RGBA, 0 for any other), and the raw
/// bytes, row-major starting at the top row.
pub uninterp spec fn image_decoding(data: Seq<u8>, jpeg: bool) -> Option<(nat, nat, nat, Seq<u8>)>;

/// Relies on `image`'s `Reader::decode`: the result is a function of the
/// encoded bytes and the chosen format alone, and a decoded 8-bit RGB or
/// RGBA image holds exactly `width * height * channels` bytes (the decoder
/// allocates exactly its `total_bytes`).
#[verifier::external_body]
fn decode_image(data: &[u8], jpeg: bool) -> (r: Option<DecodedImage>)
    ensures
        r is Some <==> image_decoding(data@, jpeg) is Some,
        r matches Some(d) ==> (image_decoding(data@, jpeg) matches Some(m) && d.width == m.0
            && d.height == m.1 && native_code(d.native) == m.2 && d.data@ == m.3),
        r matches Some(d) ==> (d.native is Some ==> d.data@.len() == d.width * d.height
            * native_code(d.native)),
{
    let mut rd = image::io::Reader::new(Cursor::new(data));
    rd.set_format(if jpeg { image::ImageFormat::Jpeg } else { image::ImageFormat::Png });
    match rd.decode() {
        Err(_) => None,
        Ok(DynamicImage::ImageRgb8(b)) => Some(DecodedImage {
            width: b.width(), height: b.height(), native: Some(Channels::Rgb), data: b.into_vec(),
        }),
        Ok(DynamicImage::ImageRgba8(b)) => Some(DecodedImage {
            width: b.width(), height: b.height(), native: Some(Channels::Rgba), data: b.into_vec(),
        }),
        Ok(img) => Some(DecodedImage {
            width: img.width(), height: img.height(), native: None, data: img.into_bytes(),
        }),
    }
}

/// Decoded, vertically flipped pixels together with the parameters the
/// driver's two-dimensional texture upload wants at mip level zero.
#[derive(Debug)]
pub struct TextureImage {
    pub width: u32,
    pub height: u32,
    pub channels: Channels,
    pub pixels: Vec<u8>,
}

impl TextureImage {
    /// The pixel buffer holds exactly `width * height` pixels of
    /// `channels`'s size.
    pub open spec fn wf(self) -> bool {
        self.pixels@.len() == self.width * self.height * self.channels.spec_bytes_per_pixel()
    }
}

/// Shape one decode result into a texture image: enforce that the decoded
/// image natively supplies exactly the requested channel layout, and flip
/// the rows so the bottom row comes first.
pub fn from_decoded(decoded: DecodedImage, channels: Channels) -> (r: Result<
    TextureImage,
    TextureError,
>)
    requires
        decoded.native matches Some(c) ==> decoded.data@.len() == decoded.width * decoded.height
            * c.spec_bytes_per_pixel(),
    ensures
        decoded.native == Some(channels) ==> (r matches Ok(t) && t.width == decoded.width
            && t.height == decoded.height && t.channels == channels && t.pixels@ == flip_rows(
            decoded.data@,
            (decoded.width * channels.spec_bytes_per_pixel()) as nat,
            decoded.height as nat,
        ) && t.wf()),
        decoded.native != Some(channels) ==> r == Err::<TextureImage, TextureError>(
            TextureError::ChannelLayoutMismatch,
        ),
{
    let ok = match (decoded.native, channels) {
        (Some(Channels::Rgb), Channels::Rgb) => true,
        (Some(Channels::Rgba), Channels::Rgba) => true,
        _ => false,
    };
    if !ok {
        return Err(TextureError::ChannelLayoutMismatch);
    }
    let bpp = channels.bytes_per_pixel();
    let rows = decoded.height as usize;
    // Binding the length as a machine word bounds the row size below.
    let data_len = decoded.data.len();
    proof {
        assert(data_len == decoded.data@.len());
    }
    let ghost spec_stride = (decoded.width * channels.spec_bytes_per_pixel()) as nat;
    let stride: usize = if rows == 0 {
        0
    } else {
        proof {
            assert(decoded.width * channels.spec_bytes_per_pixel() <= (decoded.width
                * decoded.height) * channels.spec_bytes_per_pixel()) by (nonlinear_arith)
                requires
                    decoded.height >= 1,
            ;
        }
        (decoded.width as usize) * bpp
    };
    proof {
        if rows == 0 {
            assert((decoded.width * decoded.height) * channels.spec_bytes_per_pixel() == 0)
                by (nonlinear_arith)
                requires
                    decoded.height == 0,
            ;
            assert(decoded.data@.len() == stride * rows);
        } else {
            assert((decoded.width * decoded.height) * channels.spec_bytes_per_pixel() == (
            decoded.width * channels.spec_bytes_per_pixel()) * decoded.height)
                by (nonlinear_arith);
            assert(decoded.data@.len() == stride * rows);
        }
    }
    let pixels = flip_vertical(&decoded.data, stride, rows);
    proof {
        if rows == 0 {
            assert(pixels@ =~= flip_rows(decoded.data@, spec_stride, decoded.height as nat));
        }
    }
    Ok(TextureImage { width: decoded.width, height: decoded.height, channels, pixels })
}

/// Decode an encoded image, flip it vertically so the texture origin is the
/// bottom-left corner, and enforce the requested channel layout. Fails with
/// `DecodeFailure` exactly when the bytes do not decode under `format`, and
/// with `ChannelLayoutMismatch` exactly when the decoded image's native
/// pixel kind is not the requested one; no implicit conversion is performed.
pub fn load(data: &[u8], format: Format, channels: Channels) -> (r: Result<
    TextureImage,
    TextureError,
>)
    ensures
        image_decoding(data@, format.spec_is_jpeg()) is None ==> r == Err::<
            TextureImage,
            TextureError,
        >(TextureError::DecodeFailure),
        image_decoding(data@, format.spec_is_jpeg()) matches Some(m) ==> ({
            &&& m.2 != channels.spec_bytes_per_pixel() ==> r == Err::<TextureImage, TextureError>(
                TextureError::ChannelLayoutMismatch,
            )
            &&& m.2 == channels.spec_bytes_per_pixel() ==> (r matches Ok(t) && t.width == m.0
                && t.height == m.1 && t.channels == channels && t.pixels@ == flip_rows(
                m.3,
                m.0 * channels.spec_bytes_per_pixel(),
                m.1,
            ) && t.wf())
        }),
{
    let jpeg = format.is_jpeg();
    match decode_image(data, jpeg) {
        None => Err(TextureError::DecodeFailure),
        Some(d) => {
            proof {
                assert(native_code(d.native) == channels.spec_bytes_per_pixel() <==> d.native
                    == Some(channels));
            }
            from_decoded(d, channels)
        },
    }
}

} // verus!
