//! Window icons as `data:` URLs: BGRA pixels reordered to RGBA, encoded as PNG, then Base64.
use vstd::prelude::*;
use base64::Engine;

verus! {

broadcast use vstd::seq_lib::group_seq_properties;

/// The PNG file that png 0.17 writes for an 8-bit RGBA image of the given size, or `None`
/// when the encoder refuses the image.
pub uninterp spec fn png_rgba8(width: u32, height: u32, rgba: Seq<u8>) -> Option<Seq<u8>>;

/// The character of a six-bit value in the standard Base64 alphabet (`A`-`Z`, `a`-`z`,
/// `0`-`9`, `+`, `/`).
pub open spec fn base64_digit(v: int) -> char {
    if v < 26 {
        (65 + v) as char
    } else if v < 52 {
        (97 + v - 26) as char
    } else if v < 62 {
        (48 + v - 52) as char
    } else if v == 62 {
        '+'
    } else {
        '/'
    }
}

/// The Base64 text of `bytes` in the standard alphabet with `=` padding (RFC 4648): each
/// group of three bytes gives four digits of six bits each, most significant first; a last
/// group of one or two bytes is filled with zero bits and padded with `=` to four characters.
pub open spec fn base64_standard(bytes: Seq<u8>) -> Seq<char>
    decreases bytes.len(),
{
    if bytes.len() == 0 {
        Seq::empty()
    } else if bytes.len() == 1 {
        let b0 = bytes[0] as int;
        seq![base64_digit(b0 / 4), base64_digit((b0 % 4) * 16), '=', '=']
    } else if bytes.len() == 2 {
        let b0 = bytes[0] as int;
        let b1 = bytes[1] as int;
        seq![base64_digit(b0 / 4), base64_digit((b0 % 4) * 16 + b1 / 16), base64_digit((b1 % 16) * 4), '=']
    } else {
        let b0 = bytes[0] as int;
        let b1 = bytes[1] as int;
        let b2 = bytes[2] as int;
        seq![
            base64_digit(b0 / 4),
            base64_digit((b0 % 4) * 16 + b1 / 16),
            base64_digit((b1 % 16) * 4 + b2 / 64),
            base64_digit(b2 % 64),
        ] + base64_standard(bytes.skip(3))
    }
}

/// Encodes an 8-bit RGBA image as PNG.
/// Trusted: calls png's `Encoder::new` on a `Vec<u8>`, `set_color(ColorType::Rgba)`,
/// `set_depth(BitDepth::Eight)`, `write_header` and `Writer::write_image_data`, and drops the
/// writer, which ends the file. The result is named `png_rgba8`. `write_header` refuses a zero
/// width or height, so a result implies both are positive; that every other image is accepted
/// is not stated. `write_image_data` multiplies the row length by the height before it compares
/// that size with the data, which overflows (and panics) for sizes no buffer can have, so
/// `requires` asks for exactly four bytes per pixel.
#[verifier::external_body]
fn encode_png_rgba8(width: u32, height: u32, rgba: &[u8]) -> (r: Option<Vec<u8>>)
    requires
        rgba@.len() == width as int * height as int * 4,
    ensures
        match png_rgba8(width, height, rgba@) {
            Some(bytes) => r matches Some(v) && v@ == bytes,
            None => r is None,
        },
        r is Some ==> width > 0 && height > 0,
{
    let mut png_bytes = Vec::new();
    {
        let mut encoder = png::Encoder::new(&mut png_bytes, width, height);
        encoder.set_color(png::ColorType::Rgba);
        encoder.set_depth(png::BitDepth::Eight);
        let mut writer = encoder.write_header().ok()?;
        writer.write_image_data(rgba).ok()?;
    }
    Some(png_bytes)
}

/// Encodes bytes as Base64.
/// Trusted: calls base64's `Engine::encode` on `general_purpose::STANDARD`, the standard
/// alphabet with `=` padding; the contract claims the result is `base64_standard` of the
/// bytes. It panics when the text, four characters per started group of three bytes, would be
/// longer than `usize::MAX`, which `requires` leaves out.
#[verifier::external_body]
fn encode_base64_standard(bytes: &[u8]) -> (s: String)
    requires
        4 * ((bytes@.len() + 2) / 3) <= usize::MAX,
    ensures
        s@ == base64_standard(bytes@),
{
    base64::engine::general_purpose::STANDARD.encode(bytes)
}

/// `bgra` with the blue and red byte of each four-byte pixel exchanged.
pub open spec fn bgra_to_rgba(bgra: Seq<u8>) -> Seq<u8> {
    Seq::new(bgra.len(), |i: int| {
        let base = i - i % 4;
        if i % 4 == 0 {
            bgra[base + 2]
        } else if i % 4 == 2 {
            bgra[base]
        } else {
            bgra[i]
        }
    })
}

/// The `data:` URL of a window icon whose pixels are `bgra` (four bytes per pixel, rows top
/// first): the PNG of its RGBA form in Base64.
pub open spec fn icon_data_url_of(width: u32, height: u32, bgra: Seq<u8>) -> Option<Seq<char>> {
    match png_rgba8(width, height, bgra_to_rgba(bgra)) {
        Some(png) => Some("data:image/png;base64,"@ + base64_standard(png)),
        None => None,
    }
}

/// Exchanges the blue and red byte of each pixel.
fn reorder_bgra(bgra: &[u8]) -> (rgba: Vec<u8>)
    requires
        bgra@.len() % 4 == 0,
    ensures
        rgba@ == bgra_to_rgba(bgra@),
{
    let mut rgba: Vec<u8> = Vec::new();
    let mut i: usize = 0;
    while i < bgra.len()
        invariant
            bgra@.len() % 4 == 0,
            i % 4 == 0,
            i <= bgra@.len(),
            rgba@ == bgra_to_rgba(bgra@).take(i as int),
        decreases bgra@.len() - i,
    {
        rgba.push(bgra[i + 2]);
        rgba.push(bgra[i + 1]);
        rgba.push(bgra[i]);
        rgba.push(bgra[i + 3]);
        assert(rgba@ =~= bgra_to_rgba(bgra@).take(i + 4));
        i = i + 4;
    }
    assert(rgba@ =~= bgra_to_rgba(bgra@));
    rgba
}

/// The `data:` URL of PNG bytes: `data:image/png;base64,` and their Base64 text.
pub fn png_data_url(png: &[u8]) -> (url: String)
    requires
        4 * ((png@.len() + 2) / 3) <= usize::MAX,
    ensures
        url@ == "data:image/png;base64,"@ + base64_standard(png@),
{
    let encoded = encode_base64_standard(png);
    let mut url = "data:image/png;base64,".to_owned();
    url.append(encoded.as_str());
    url
}

/// The `data:` URL of a window icon whose pixels are `bgra`; `None` when the PNG encoder
/// refuses the image or its Base64 text would be longer than `usize::MAX`.
pub fn icon_data_url(width: u32, height: u32, bgra: &[u8]) -> (r: Option<String>)
    requires
        bgra@.len() == width as int * height as int * 4,
    ensures
        match png_rgba8(width, height, bgra_to_rgba(bgra@)) {
            None => r is None,
            Some(png) => if 4 * ((png.len() + 2) / 3) <= usize::MAX {
                r matches Some(s) && Some(s@) == icon_data_url_of(width, height, bgra@)
            } else {
                r is None
            },
        },
{
    proof {
        assert(bgra@.len() % 4 == 0) by (nonlinear_arith)
            requires
                bgra@.len() == width as int * height as int * 4,
        ;
    }
    let rgba = reorder_bgra(bgra);
    let png = match encode_png_rgba8(width, height, rgba.as_slice()) {
        Some(p) => p,
        None => return None,
    };
    let groups = png.len() / 3 + if png.len() % 3 == 0 { 0 } else { 1 };
    assert(groups == (png@.len() + 2) / 3);
    if groups > usize::MAX / 4 {
        return None;
    }
    Some(png_data_url(png.as_slice()))
}

} // verus!
