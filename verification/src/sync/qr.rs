//! The pairing code: its contents and its pictures.

use vstd::prelude::*;
use vstd::utf8::encode_utf8;

use crate::ids::hex_digit;
use crate::text::{decimal, decimal_text};

verus! {

/// The relay that the pairing code names.
pub const DEFAULT_RELAY: &'static str = "https://euw1-1.relay.iroh.network/";

/// What the pairing code says.
#[derive(Debug, PartialEq, Eq)]
pub struct QrPayload {
    /// Version of the protocol, always one.
    pub v: u32,
    /// Id of the endpoint to connect to.
    pub node_id: String,
    /// Name of the machine.
    pub machine: String,
    /// Relay to connect through.
    pub relay: String,
}

/// Why there is no pairing code.
#[derive(Debug, PartialEq, Eq)]
pub enum QrError {
    /// The data does not fit into a code, in words.
    Encode(String),
    /// The picture could not be written, in words.
    Png(String),
}

/// Calls `hostname::get`; a name that is not Unicode has its bad parts
/// replaced. Nothing is claimed of the name, and there may be none.
#[verifier::external_body]
pub(crate) fn host_name() -> (name: Option<String>)
{
    hostname::get().ok().map(|s| s.to_string_lossy().into_owned())
}

/// The name of a machine whose name may be unknown.
pub fn machine_name(name: Option<String>) -> (machine: String)
    ensures
        machine@ == match name {
            Some(n) => n@,
            None => "unknown"@,
        },
{
    match name {
        Some(n) => n,
        None => "unknown".to_owned(),
    }
}

/// A character inside a JSON string: quotes, backslashes and what comes before
/// the space are written as escapes, all others as they are.
pub open spec fn json_char(c: char) -> Seq<char> {
    match c {
        '"' => seq!['\\', '"'],
        '\\' => seq!['\\', '\\'],
        '\u{8}' => seq!['\\', 'b'],
        '\u{c}' => seq!['\\', 'f'],
        '\n' => seq!['\\', 'n'],
        '\r' => seq!['\\', 'r'],
        '\t' => seq!['\\', 't'],
        _ => if c >= ' ' {
            seq![c]
        } else {
            seq![
                '\\',
                'u',
                '0',
                '0',
                hex_digit((c as int / 16) as u128),
                hex_digit((c as int % 16) as u128),
            ]
        },
    }
}

/// The characters inside the JSON string of a text.
pub open spec fn json_chars(s: Seq<char>) -> Seq<char>
    decreases s.len(),
{
    if s.len() == 0 {
        Seq::empty()
    } else {
        json_chars(s.drop_last()) + json_char(s.last())
    }
}

/// A text as a JSON string, with quotes around it.
pub open spec fn json_string_of(s: Seq<char>) -> Seq<char> {
    seq!['"'] + json_chars(s) + seq!['"']
}

/// A JSON string holds no character that comes before the space, and so no line
/// end.
pub proof fn law_json_string_is_one_line(s: Seq<char>)
    ensures
        forall|i: int| 0 <= i < json_string_of(s).len() ==> #[trigger] json_string_of(s)[i] >= ' ',
{
    lemma_json_chars(s);
}

proof fn lemma_json_char(c: char)
    ensures
        forall|i: int| 0 <= i < json_char(c).len() ==> #[trigger] json_char(c)[i] >= ' ',
{
    if !(c >= ' ') {
        assert(hex_digit((c as int / 16) as u128) >= ' ');
        assert(hex_digit((c as int % 16) as u128) >= ' ');
    }
}

proof fn lemma_json_chars(s: Seq<char>)
    ensures
        forall|i: int| 0 <= i < json_chars(s).len() ==> #[trigger] json_chars(s)[i] >= ' ',
    decreases s.len(),
{
    if s.len() > 0 {
        lemma_json_chars(s.drop_last());
        let a = json_chars(s.drop_last());
        let b = json_char(s.last());
        lemma_json_char(s.last());
        assert forall|i: int| 0 <= i < json_chars(s).len() implies #[trigger] json_chars(s)[i]
            >= ' ' by {
            if i < a.len() {
                assert(json_chars(s)[i] == a[i]);
            } else {
                assert(json_chars(s)[i] == b[i - a.len()]);
            }
        }
    }
}

/// Calls `serde_json::to_string` on a string, which cannot fail. The contract
/// claims that its escapes are those of `json_char`.
#[verifier::external_body]
pub(crate) fn json_string(s: &str) -> (text: String)
    ensures
        text@ == json_string_of(s@),
{
    serde_json::to_string(s).unwrap_or_default()
}

/// The JSON text of a payload: one object, its fields in the order of their
/// declaration, no white space.
pub open spec fn payload_json(v: u32, node_id: Seq<char>, machine: Seq<char>, relay: Seq<char>) -> Seq<
    char,
> {
    "{\"v\":"@ + decimal(v as nat) + ",\"node_id\":"@ + json_string_of(node_id) + ",\"machine\":"@
        + json_string_of(machine) + ",\"relay\":"@ + json_string_of(relay) + "}"@
}

impl QrPayload {
    /// The payload for an endpoint on a machine.
    pub fn for_machine(node_id: String, machine: String) -> (p: QrPayload)
        ensures
            p.v == 1,
            p.node_id@ == node_id@,
            p.machine@ == machine@,
            p.relay@ == DEFAULT_RELAY@,
    {
        QrPayload { v: 1, node_id, machine, relay: DEFAULT_RELAY.to_owned() }
    }

    /// The payload for an endpoint on this machine. Nothing is claimed of the
    /// machine's name, which depends on the machine: see `for_machine` and
    /// `machine_name` for what is made of it.
    pub fn new(node_id_str: String) -> (p: QrPayload)
        ensures
            p.v == 1,
            p.node_id@ == node_id_str@,
            p.relay@ == DEFAULT_RELAY@,
    {
        QrPayload::for_machine(node_id_str, machine_name(host_name()))
    }

    /// What the payload holds, as JSON text.
    pub open spec fn json(&self) -> Seq<char> {
        payload_json(self.v, self.node_id@, self.machine@, self.relay@)
    }

    /// The compact JSON text that goes into the code.
    pub fn to_json(&self) -> (text: String)
        ensures
            text@ == self.json(),
    {
        let mut s = "{\"v\":".to_owned();
        s.append(decimal_text(self.v as u64).as_str());
        s.append(",\"node_id\":");
        s.append(json_string(self.node_id.as_str()).as_str());
        s.append(",\"machine\":");
        s.append(json_string(self.machine.as_str()).as_str());
        s.append(",\"relay\":");
        s.append(json_string(self.relay.as_str()).as_str());
        s.append("}");
        s
    }
}

/// What the QR code of some data looks like in characters, as
/// `qrcode::QrCode::new` and its two-rows-per-line Unicode renderer give it;
/// or the words of the error.
pub uninterp spec fn qr_art_of(data: Seq<u8>) -> Result<Seq<char>, Seq<char>>;

/// Calls `qrcode::QrCode::new` and renders the code with `Dense1x2`, dark on
/// light, with its quiet zone. The contract only names the result.
#[verifier::external_body]
fn qr_art(data: &[u8]) -> (art: Result<String, String>)
    ensures
        match art {
            Ok(text) => qr_art_of(data@) == Ok::<Seq<char>, Seq<char>>(text@),
            Err(words) => qr_art_of(data@) == Err::<Seq<char>, Seq<char>>(words@),
        },
{
    let code = qrcode::QrCode::new(data).map_err(|e| e.to_string())?;
    Ok(
        code.render::<qrcode::render::unicode::Dense1x2>()
            .dark_color(qrcode::render::unicode::Dense1x2::Dark)
            .light_color(qrcode::render::unicode::Dense1x2::Light)
            .quiet_zone(true)
            .build(),
    )
}

/// The pixels of the QR code of some data, as `qrcode::QrCode::new` and its
/// grayscale renderer give them: width, height and one byte per pixel; or the
/// words of the error.
pub uninterp spec fn qr_pixels_of(data: Seq<u8>, module_size: u32) -> Result<
    (u32, u32, Seq<u8>),
    Seq<char>,
>;

/// Whether the largest QR code fits into memory as a picture in four channels
/// with this many pixels per module. It has 177 modules and a quiet zone of
/// four on each side.
pub open spec fn module_size_fits(module_size: u32) -> bool {
    185 * module_size <= u32::MAX && (185 * module_size) * (185 * module_size) * 4 <= isize::MAX
}

/// Calls `qrcode::QrCode::new` and renders the code in grayscale, black on
/// white, with its quiet zone. The contract names the result and claims that
/// there is one byte per pixel, within the bounds of the largest code.
#[verifier::external_body]
fn qr_pixels(data: &[u8], module_size: u32) -> (image: Result<(u32, u32, Vec<u8>), String>)
    requires
        module_size_fits(module_size),
    ensures
        match image {
            Ok((w, h, pixels)) => {
                &&& qr_pixels_of(data@, module_size) == Ok::<(u32, u32, Seq<u8>), Seq<char>>(
                    (w, h, pixels@),
                )
                &&& pixels@.len() == w * h
                &&& w * h * 4 <= isize::MAX
            },
            Err(words) => qr_pixels_of(data@, module_size) == Err::<
                (u32, u32, Seq<u8>),
                Seq<char>,
            >(words@),
        },
{
    let code = qrcode::QrCode::new(data).map_err(|e| e.to_string())?;
    let image = code.render::<image::Luma<u8>>()
        .module_dimensions(module_size, module_size)
        .quiet_zone(true)
        .dark_color(image::Luma([0u8]))
        .light_color(image::Luma([255u8]))
        .build();
    Ok((image.width(), image.height(), image.into_raw()))
}

/// The PNG file of a grayscale picture, written in four channels by the encoder
/// of the `image` crate; or the words of the error.
pub uninterp spec fn png_of(width: u32, height: u32, pixels: Seq<u8>) -> Result<Seq<u8>, Seq<char>>;

/// Calls `image::ImageBuffer::from_raw`, turns the picture into RGBA and writes
/// it with `image::codecs::png::PngEncoder`. The contract only names the result.
#[verifier::external_body]
fn png_file(width: u32, height: u32, pixels: Vec<u8>) -> (png: Result<Vec<u8>, String>)
    requires
        pixels@.len() == width * height,
        width * height * 4 <= isize::MAX,
    ensures
        match png {
            Ok(bytes) => png_of(width, height, pixels@) == Ok::<Seq<u8>, Seq<char>>(bytes@),
            Err(words) => png_of(width, height, pixels@) == Err::<Seq<u8>, Seq<char>>(words@),
        },
{
    let gray = image::GrayImage::from_raw(width, height, pixels).unwrap_or_default();
    let rgba = image::DynamicImage::ImageLuma8(gray).to_rgba8();
    let mut bytes: Vec<u8> = Vec::new();
    image::ImageEncoder::write_image(
        image::codecs::png::PngEncoder::new(&mut bytes),
        rgba.as_raw(),
        width,
        height,
        image::ExtendedColorType::Rgba8,
    ).map_err(|e| e.to_string())?;
    Ok(bytes)
}

/// The pairing code as lines of characters for a terminal.
pub fn qr_to_ascii(payload: &QrPayload) -> (art: Result<String, QrError>)
    ensures
        match qr_art_of(encode_utf8(payload.json())) {
            Ok(text) => art matches Ok(s) && s@ == text,
            Err(words) => art matches Err(QrError::Encode(e)) && e@ == words,
        },
{
    let json = payload.to_json();
    match qr_art(json.as_str().as_bytes()) {
        Ok(text) => Ok(text),
        Err(words) => Err(QrError::Encode(words)),
    }
}

/// The answer for the pixels of a pairing code: its PNG file.
pub fn png_answer(pixels: Result<(u32, u32, Vec<u8>), String>) -> (png: Result<Vec<u8>, QrError>)
    requires
        pixels matches Ok((w, h, p)) ==> p@.len() == w * h && w * h * 4 <= isize::MAX,
    ensures
        match pixels {
            Err(words) => png matches Err(QrError::Encode(e)) && e@ == words@,
            Ok((w, h, p)) => match png_of(w, h, p@) {
                Ok(bytes) => png matches Ok(b) && b@ == bytes,
                Err(words) => png matches Err(QrError::Png(e)) && e@ == words,
            },
        },
{
    match pixels {
        Err(words) => Err(QrError::Encode(words)),
        Ok((w, h, p)) => match png_file(w, h, p) {
            Ok(bytes) => Ok(bytes),
            Err(words) => Err(QrError::Png(words)),
        },
    }
}

/// The pairing code as a PNG file with `module_size` pixels per module.
pub fn qr_to_png(payload: &QrPayload, module_size: u32) -> (png: Result<Vec<u8>, QrError>)
    requires
        module_size_fits(module_size),
    ensures
        match qr_pixels_of(encode_utf8(payload.json()), module_size) {
            Err(words) => png matches Err(QrError::Encode(e)) && e@ == words,
            Ok((w, h, p)) => match png_of(w, h, p) {
                Ok(bytes) => png matches Ok(b) && b@ == bytes,
                Err(words) => png matches Err(QrError::Png(e)) && e@ == words,
            },
        },
{
    let json = payload.to_json();
    let pixels = qr_pixels(json.as_str().as_bytes(), module_size);
    png_answer(pixels)
}

} // verus!
