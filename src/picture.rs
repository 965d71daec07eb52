//! The picture of each level: where it comes from, how it is decoded, and
//! what a picture supplied by the player must be.
use vstd::prelude::*;

verus! {

#[verifier::external_type_specification]
#[verifier::external_body]
pub struct ExPngError(minipng::Error);

/// Room for the decoded image data, in bytes.
pub const DECODE_ROOM: usize = 80_000;

/// Width that a supplied picture must have, in pixels.
pub const PICTURE_WIDTH: u32 = 320;

/// Height that a supplied picture must have, in pixels.
pub const PICTURE_HEIGHT: u32 = 200;

/// Levels from this index on have no picture, and so do not exist.
pub const LEVEL_LIMIT: u8 = 99;

/// Number of pictures that come with the game.
pub const CATALOG_SIZE: u8 = 3;

/// Status with which the program ends after a fatal error.
pub const FATAL_EXIT_CODE: i32 = 2;

/// A decoded picture.
#[derive(Debug)]
pub struct Picture {
    pub width: u32,
    pub height: u32,
    /// whether the pixels are indices into the palette
    pub indexed: bool,
    /// 256 entries of red, green, blue and alpha
    pub palette: Vec<u8>,
    /// the pixel data, row after row
    pub pixels: Vec<u8>,
}

/// A picture as plain values: width, height, whether it is indexed, its
/// palette and its pixels.
pub open spec fn picture_view(p: Picture) -> (u32, u32, bool, Seq<u8>, Seq<u8>) {
    (p.width, p.height, p.indexed, p.palette@, p.pixels@)
}

/// What decoding a PNG file with room for `room` bytes of image data
/// gives, or `None` where the file cannot be decoded.
pub uninterp spec fn png_decoding(bytes: Seq<u8>, room: nat) -> Option<(u32, u32, bool, Seq<u8>, Seq<u8>)>;

/// Relies on `minipng::decode_png`, which decodes a PNG file into a buffer
/// (here of `room` bytes) and fails with a `minipng::Error`; its result
/// depends on the bytes and the room alone. `ImageData::palette` gives four
/// bytes for each of the 256 entries.
#[verifier::external_body]
fn decode_png(bytes: &Vec<u8>, room: usize) -> (r: Result<Picture, minipng::Error>)
    ensures
        match r {
            Ok(p) => png_decoding(bytes@, room as nat) == Some(picture_view(p)) && p.palette@.len() == 1024,
            Err(_) => png_decoding(bytes@, room as nat) is None,
        },
{
    let mut buf = vec![0u8; room];
    match minipng::decode_png(bytes.as_slice(), &mut buf) {
        Ok(image) => Ok(Picture {
            width: image.width(),
            height: image.height(),
            indexed: matches!(image.color_type(), minipng::ColorType::Indexed),
            palette: (0..=255u8).flat_map(|i| image.palette(i)).collect(),
            pixels: image.pixels().to_vec(),
        }),
        Err(e) => Err(e),
    }
}

/// Relies on the `Display` impl of `minipng::Error`: a description of the
/// error.
#[verifier::external_body]
fn describe_png_error(e: &minipng::Error) -> (r: String) {
    format!("{}", e)
}

/// Why a picture cannot be used.
#[derive(Debug)]
pub enum PictureError {
    /// the file is no PNG that can be decoded; the decoder's description
    Decode(String),
    /// a supplied picture is not 320x200 pixels
    WrongSize,
    /// a supplied picture has no palette
    NotIndexed,
}

impl PictureError {
    /// The message shown before the program ends; a decoding error is
    /// followed by the decoder's description.
    pub fn diagnostic(&self) -> (r: &'static str)
        ensures
            self is Decode ==> r@ == "Error: Could not decode PNG file"@,
            self is WrongSize ==> r@ == "Error: Custom image must be 320x200 pixels"@,
            self is NotIndexed ==> r@ == "Error: Custom image must be indexed"@,
    {
        match self {
            PictureError::Decode(_) => "Error: Could not decode PNG file",
            PictureError::WrongSize => "Error: Custom image must be 320x200 pixels",
            PictureError::NotIndexed => "Error: Custom image must be indexed",
        }
    }

    /// The status with which the program ends: every such error is fatal.
    pub fn exit_code(&self) -> (r: i32)
        ensures
            r == FATAL_EXIT_CODE,
    {
        FATAL_EXIT_CODE
    }
}

/// Decode a PNG file.
pub fn decode_picture(bytes: &Vec<u8>) -> (r: Result<Picture, PictureError>)
    ensures
        match png_decoding(bytes@, DECODE_ROOM as nat) {
            Some(v) => r is Ok && picture_view(r->Ok_0) == v && r->Ok_0.palette@.len() == 1024,
            None => r is Err && r->Err_0 is Decode,
        },
{
    match decode_png(bytes, DECODE_ROOM) {
        Ok(p) => Ok(p),
        Err(e) => Err(PictureError::Decode(describe_png_error(&e))),
    }
}

/// Accept a decoded picture supplied by the player only if it is 320x200
/// pixels and indexed.
pub fn check_custom_picture(p: Picture) -> (r: Result<Picture, PictureError>)
    ensures
        (p.width != PICTURE_WIDTH || p.height != PICTURE_HEIGHT) ==> r is Err && r->Err_0 is WrongSize,
        (p.width == PICTURE_WIDTH && p.height == PICTURE_HEIGHT && !p.indexed) ==> r is Err
            && r->Err_0 is NotIndexed,
        (p.width == PICTURE_WIDTH && p.height == PICTURE_HEIGHT && p.indexed) ==> r == Ok::<
            Picture,
            PictureError,
        >(p),
{
    if p.width != PICTURE_WIDTH || p.height != PICTURE_HEIGHT {
        return Err(PictureError::WrongSize);
    }
    if !p.indexed {
        return Err(PictureError::NotIndexed);
    }
    Ok(p)
}

/// Decode a picture supplied by the player and check it.
pub fn decode_custom_picture(bytes: &Vec<u8>) -> (r: Result<Picture, PictureError>)
    ensures
        match png_decoding(bytes@, DECODE_ROOM as nat) {
            Some(v) => if v.0 != PICTURE_WIDTH || v.1 != PICTURE_HEIGHT {
                r is Err && r->Err_0 is WrongSize
            } else if !v.2 {
                r is Err && r->Err_0 is NotIndexed
            } else {
                r is Ok && picture_view(r->Ok_0) == v && r->Ok_0.palette@.len() == 1024
            },
            None => r is Err && r->Err_0 is Decode,
        },
{
    match decode_picture(bytes) {
        Ok(p) => check_custom_picture(p),
        Err(e) => Err(e),
    }
}

/// The name of the file that may replace the picture of a level: the
/// level's number, from 1, then `.png`; levels from `LEVEL_LIMIT` on have
/// none.
pub open spec fn file_name_spec(level: u8) -> Option<Seq<u8>> {
    let n = level as int + 1;
    let png = seq![46u8, 112u8, 110u8, 103u8];
    if level >= LEVEL_LIMIT {
        None
    } else if n < 10 {
        Some(seq![(48 + n) as u8] + png)
    } else {
        Some(seq![(48 + n / 10) as u8, (48 + n % 10) as u8] + png)
    }
}

/// The name of the file that may replace the picture of a level, as bytes.
pub fn level_file_name(level: u8) -> (r: Option<Vec<u8>>)
    ensures
        match file_name_spec(level) {
            Some(name) => r is Some && r->0@ == name,
            None => r is None,
        },
{
    if level >= LEVEL_LIMIT {
        return None;
    }
    let n = level + 1;
    let mut name: Vec<u8> = Vec::new();
    if n < 10 {
        name.push(48 + n);
    } else {
        name.push(48 + n / 10);
        name.push(48 + n % 10);
    }
    name.push(46);
    name.push(112);
    name.push(110);
    name.push(103);
    proof {
        let png = seq![46u8, 112u8, 110u8, 103u8];
        if n < 10 {
            assert(name@ =~= seq![(48 + n) as u8] + png);
        } else {
            assert(name@ =~= seq![(48 + n / 10) as u8, (48 + n % 10) as u8] + png);
        }
    }
    Some(name)
}

/// The picture that comes with the game for a level, numbered from 1, if
/// the catalog has one.
pub fn catalog_entry(level: u8) -> (r: Option<u8>)
    ensures
        level < CATALOG_SIZE ==> r == Some((level + 1) as u8),
        level >= CATALOG_SIZE ==> r is None,
{
    if level < CATALOG_SIZE {
        Some(level + 1)
    } else {
        None
    }
}

} // verus!
