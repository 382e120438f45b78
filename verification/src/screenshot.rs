//! Encoding of screenshots.

use vstd::prelude::*;

use crate::text;
use crate::text::{
    chars_of, extension_of, lowercase, push_decimal, push_text, quoted, same_text, string_from,
};

verus! {

/// An image to be saved. Each pixel has four bytes, red first.
#[derive(Debug, PartialEq, Eq)]
pub struct ScreenshotJob {
    pub path: String,
    pub width: u32,
    pub height: u32,
    pub rgba: Vec<u8>,
}

/// The formats that images are saved in.
#[derive(Clone, Copy, Debug, PartialEq, Eq, Structural)]
pub enum ScreenshotFormat {
    Png,
    Ppm,
    Raw,
}

/// Why an image cannot be encoded.
#[derive(Debug, PartialEq, Eq)]
pub enum ScreenshotError {
    DimensionsOverflow,
    WrongLength { actual: usize, expected: usize },
    UnsupportedExtension { extension: Option<String> },
    /// The PNG encoder's own report.
    Png { report: String },
}

/// A failure of the PNG encoder.
#[verifier::external_type_specification]
#[verifier::external_body]
pub struct ExEncodingError(png::EncodingError);

/// The PNG file that `png::Encoder` makes of eight-bit pixels with four channels.
pub uninterp spec fn png_file(width: u32, height: u32, rgba: Seq<u8>) -> Seq<u8>;

/// The report of the PNG encoder about an image without columns or rows.
pub open spec fn empty_image_report(width: u32) -> Seq<char> {
    if width == 0 {
        "Zero width not allowed"@
    } else {
        "Zero height not allowed"@
    }
}

/// `png::Encoder` with colour type `Rgba` and depth `Eight`, writing to memory: the whole
/// file. It refuses an image without columns or rows, and nothing else, as the pixels are
/// as many as width and height say. Its error then reports which of the two is zero, the
/// width first.
#[verifier::external_body]
fn png_encode(width: u32, height: u32, rgba: &[u8]) -> (file: Result<Vec<u8>, png::EncodingError>)
    requires
        rgba@.len() == width * height * 4,
    ensures
        match file {
            Ok(bytes) => width > 0 && height > 0 && bytes@ == png_file(width, height, rgba@),
            Err(error) => (width == 0 || height == 0) && forall|report: String|
                call_ensures(png_report, (&error,), report) ==> report@ == empty_image_report(
                    width,
                ),
        },
{
    let mut bytes = Vec::new();
    let mut encoder = png::Encoder::new(&mut bytes, width, height);
    encoder.set_color(png::ColorType::Rgba);
    encoder.set_depth(png::BitDepth::Eight);
    encoder.write_header()?.write_image_data(rgba)?;
    Ok(bytes)
}

/// `std::fmt::Display` for `png::EncodingError`: the encoder's report. What it says of an
/// error is stated where the error is made.
#[verifier::external_body]
fn png_report(error: &png::EncodingError) -> (report: String) {
    format!("{error}")
}

impl ScreenshotError {
    /// What is reported.
    pub open spec fn message(self) -> Seq<char> {
        match self {
            ScreenshotError::DimensionsOverflow => "screenshot dimensions overflow"@,
            ScreenshotError::WrongLength { actual, expected } => "RGBA buffer has "@
                + text::decimal(actual as nat) + " bytes, expected "@ + text::decimal(
                expected as nat,
            ),
            ScreenshotError::UnsupportedExtension { extension } => {
                "unsupported screenshot extension "@ + match extension {
                    Some(extension) => "Some("@ + text::debug_quoted(extension@) + ")"@,
                    None => "None"@,
                }
            },
            ScreenshotError::Png { report } => report@,
        }
    }

    /// The report of the failure.
    #[must_use]
    pub fn text(&self) -> (report: String)
        ensures
            report@ == self.message(),
    {
        let mut message = String::new();
        match self {
            ScreenshotError::DimensionsOverflow => {
                push_text(&mut message, "screenshot dimensions overflow");
            },
            ScreenshotError::WrongLength { actual, expected } => {
                push_text(&mut message, "RGBA buffer has ");
                push_decimal(&mut message, *actual as u64);
                push_text(&mut message, " bytes, expected ");
                push_decimal(&mut message, *expected as u64);
            },
            ScreenshotError::UnsupportedExtension { extension } => {
                push_text(&mut message, "unsupported screenshot extension ");
                match extension {
                    Some(extension) => {
                        push_text(&mut message, "Some(");
                        push_text(&mut message, quoted(extension.as_str()).as_str());
                        push_text(&mut message, ")");
                    },
                    None => {
                        push_text(&mut message, "None");
                    },
                }
            },
            ScreenshotError::Png { report } => {
                push_text(&mut message, report.as_str());
            },
        }
        assert(message@ =~= self.message());
        message
    }
}

/// The report of a screenshot that could not be saved.
#[must_use]
pub fn failure_report(path: &str, cause: &str) -> (report: String)
    ensures
        report@ == "failed to save screenshot "@ + path@ + ": "@ + cause@,
{
    let mut report = String::new();
    push_text(&mut report, "failed to save screenshot ");
    push_text(&mut report, path);
    push_text(&mut report, ": ");
    push_text(&mut report, cause);
    assert(report@ =~= "failed to save screenshot "@ + path@ + ": "@ + cause@);
    report
}

/// The extension of a path in lower case.
pub open spec fn lower_extension(path: Seq<char>) -> Option<Seq<char>> {
    match text::path_extension(path) {
        Some(extension) => Some(
            extension.map_values(|character: char| text::ascii_lowercase(character)),
        ),
        None => None,
    }
}

/// The format that a path asks for.
pub open spec fn format_for(path: Seq<char>) -> Option<ScreenshotFormat> {
    match lower_extension(path) {
        Some(extension) => if extension == "png"@ {
            Some(ScreenshotFormat::Png)
        } else if extension == "ppm"@ {
            Some(ScreenshotFormat::Ppm)
        } else if extension == "raw"@ {
            Some(ScreenshotFormat::Raw)
        } else {
            None
        },
        None => None,
    }
}

/// The colours of pixels without their opacity.
pub open spec fn colors(rgba: Seq<u8>) -> Seq<u8>
    decreases rgba.len(),
{
    if rgba.len() < 4 {
        Seq::empty()
    } else {
        rgba.take(3) + colors(rgba.skip(4))
    }
}

/// The bytes of an ASCII text.
pub open spec fn ascii(text: Seq<char>) -> Seq<u8> {
    text.map_values(|character: char| character as u8)
}

/// What stands before the colours in a PPM file.
pub open spec fn ppm_header(width: u32, height: u32) -> Seq<char> {
    "P6\n"@ + text::decimal(width as nat) + " "@ + text::decimal(height as nat) + "\n255\n"@
}

impl ScreenshotJob {
    /// The number of bytes that the dimensions call for.
    pub open spec fn expected(self) -> int {
        self.width * self.height * 4
    }

    /// The format to save the image in, if dimensions, pixels and path allow it.
    pub fn format(&self) -> (format: Result<ScreenshotFormat, ScreenshotError>)
        ensures
            match format {
                Ok(format) => self.expected() <= usize::MAX && self.rgba@.len() == self.expected()
                    && format_for(self.path@) == Some(format),
                Err(ScreenshotError::DimensionsOverflow) => self.expected() > usize::MAX,
                Err(ScreenshotError::WrongLength { actual, expected }) => self.expected()
                    == expected && self.rgba@.len() == actual && actual != expected,
                Err(ScreenshotError::UnsupportedExtension { extension }) => {
                    &&& self.expected() <= usize::MAX
                    &&& self.rgba@.len() == self.expected()
                    &&& format_for(self.path@) is None
                    &&& text::optional(extension) == lower_extension(self.path@)
                },
                Err(ScreenshotError::Png { .. }) => false,
            },
    {
        assert(self.width * self.height * 4 <= 0xffff_ffff * 0xffff_ffff * 4) by (nonlinear_arith)
            requires
                self.width <= 0xffff_ffff,
                self.height <= 0xffff_ffff,
        ;
        assert(0 <= self.width * self.height) by (nonlinear_arith)
            requires
                self.width >= 0,
                self.height >= 0,
        ;
        let pixels: u128 = self.width as u128 * self.height as u128;
        let expected: u128 = pixels * 4;
        if expected > usize::MAX as u128 {
            return Err(ScreenshotError::DimensionsOverflow);
        }
        let expected: usize = expected as usize;
        if self.rgba.len() != expected {
            return Err(ScreenshotError::WrongLength { actual: self.rgba.len(), expected });
        }
        match extension_of(self.path.as_str()) {
            Some(extension) => {
                let lower = lowercase(extension.as_str());
                if same_text(lower.as_str(), "png") {
                    Ok(ScreenshotFormat::Png)
                } else if same_text(lower.as_str(), "ppm") {
                    Ok(ScreenshotFormat::Ppm)
                } else if same_text(lower.as_str(), "raw") {
                    Ok(ScreenshotFormat::Raw)
                } else {
                    Err(ScreenshotError::UnsupportedExtension { extension: Some(lower) })
                }
            },
            None => Err(ScreenshotError::UnsupportedExtension { extension: None }),
        }
    }

    fn encode_png(&self) -> (file: Result<Vec<u8>, ScreenshotError>)
        requires
            self.rgba@.len() == self.expected(),
        ensures
            match file {
                Ok(bytes) => self.width > 0 && self.height > 0 && bytes@ == png_file(
                    self.width,
                    self.height,
                    self.rgba@,
                ),
                Err(ScreenshotError::Png { report }) => (self.width == 0 || self.height == 0)
                    && report@ == empty_image_report(self.width),
                Err(_) => false,
            },
    {
        match png_encode(self.width, self.height, &self.rgba) {
            Ok(bytes) => Ok(bytes),
            Err(error) => Err(ScreenshotError::Png { report: png_report(&error) }),
        }
    }

    /// The file in the PPM format.
    fn encode_ppm(&self) -> (file: Vec<u8>)
        ensures
            file@ == ascii(ppm_header(self.width, self.height)) + colors(self.rgba@),
    {
        let mut header = string_from("P6\n");
        push_decimal(&mut header, self.width as u64);
        push_text(&mut header, " ");
        push_decimal(&mut header, self.height as u64);
        push_text(&mut header, "\n255\n");
        assert(header@ =~= ppm_header(self.width, self.height));
        let mut file = ascii_bytes(header.as_str());
        let ghost start = file@;
        let mut i: usize = 0;
        assert(self.rgba@.skip(0) =~= self.rgba@);
        while self.rgba.len() - i >= 4
            invariant
                i <= self.rgba@.len(),
                start + colors(self.rgba@) == file@ + colors(self.rgba@.skip(i as int)),
            decreases self.rgba@.len() - i,
        {
            let ghost rest = self.rgba@.skip(i as int);
            let ghost before = file@;
            file.push(self.rgba[i]);
            file.push(self.rgba[i + 1]);
            file.push(self.rgba[i + 2]);
            assert(file@ =~= before + rest.take(3));
            assert(rest.skip(4) =~= self.rgba@.skip(i + 4));
            assert(before + (rest.take(3) + colors(rest.skip(4))) =~= (before + rest.take(3))
                + colors(rest.skip(4)));
            i = i + 4;
        }
        assert(file@ + Seq::<u8>::empty() =~= file@);
        file
    }

    /// The bytes of the file that the image is saved in.
    pub fn encode(&self) -> (file: Result<Vec<u8>, ScreenshotError>)
        ensures
            match file {
                Ok(bytes) => {
                    &&& self.rgba@.len() == self.expected()
                    &&& match format_for(self.path@) {
                        Some(ScreenshotFormat::Png) => self.width > 0 && self.height > 0 && bytes@
                            == png_file(self.width, self.height, self.rgba@),
                        Some(ScreenshotFormat::Ppm) => bytes@ == ascii(
                            ppm_header(self.width, self.height),
                        ) + colors(self.rgba@),
                        Some(ScreenshotFormat::Raw) => bytes@ == self.rgba@,
                        None => false,
                    }
                },
                Err(ScreenshotError::DimensionsOverflow) => self.expected() > usize::MAX,
                Err(ScreenshotError::WrongLength { actual, expected }) => self.expected()
                    == expected && self.rgba@.len() == actual && actual != expected,
                Err(ScreenshotError::UnsupportedExtension { extension }) => {
                    &&& self.rgba@.len() == self.expected()
                    &&& format_for(self.path@) is None
                    &&& text::optional(extension) == lower_extension(self.path@)
                },
                Err(ScreenshotError::Png { report }) => {
                    &&& self.rgba@.len() == self.expected()
                    &&& format_for(self.path@) == Some(ScreenshotFormat::Png)
                    &&& self.width == 0 || self.height == 0
                    &&& report@ == empty_image_report(self.width)
                },
            },
    {
        match self.format() {
            Ok(ScreenshotFormat::Png) => self.encode_png(),
            Ok(ScreenshotFormat::Ppm) => Ok(self.encode_ppm()),
            Ok(ScreenshotFormat::Raw) => {
                let bytes = self.rgba.clone();
                assert(bytes@ =~= self.rgba@);
                Ok(bytes)
            },
            Err(error) => Err(error),
        }
    }
}

fn ascii_bytes(text: &str) -> (bytes: Vec<u8>)
    ensures
        bytes@ == ascii(text@),
{
    let chars = chars_of(text);
    let ghost all = ascii(text@);
    let mut bytes: Vec<u8> = Vec::new();
    let mut i: usize = 0;
    while i < chars.len()
        invariant
            i <= chars@.len(),
            chars@ == text@,
            all == ascii(text@),
            bytes@ == all.take(i as int),
        decreases chars@.len() - i,
    {
        bytes.push(chars[i] as u8);
        assert(all.take(i + 1) =~= all.take(i as int).push(all[i as int]));
        i = i + 1;
    }
    assert(all.take(i as int) =~= all);
    bytes
}

/// A PPM file has three bytes for each pixel behind its header.
pub proof fn lemma_three_bytes_per_pixel(rgba: Seq<u8>, pixels: nat)
    requires
        rgba.len() == pixels * 4,
    ensures
        colors(rgba).len() == pixels * 3,
    decreases pixels,
{
    if pixels > 0 {
        lemma_three_bytes_per_pixel(rgba.skip(4), (pixels - 1) as nat);
    }
}

/// Every byte of a PPM image is the matching colour of its pixel.
pub proof fn lemma_color_of_pixel(rgba: Seq<u8>, pixel: int, channel: int)
    requires
        0 <= pixel,
        pixel * 4 + 4 <= rgba.len(),
        0 <= channel < 3,
    ensures
        pixel * 3 + channel < colors(rgba).len(),
        colors(rgba)[pixel * 3 + channel] == rgba[pixel * 4 + channel],
    decreases pixel,
{
    if pixel > 0 {
        lemma_color_of_pixel(rgba.skip(4), pixel - 1, channel);
    }
}

/// Whether a letter is the given small letter or its capital.
pub open spec fn is_letter(character: char, small: char, capital: char) -> bool {
    character == small || character == capital
}

/// The format of a screenshot is told by the extension of its name, in capitals or not.
pub proof fn lemma_extensions_name_formats(path: Seq<char>)
    ensures
        match text::path_extension(path) {
            Some(name) => {
                let three = name.len() == 3;
                &&& format_for(path) == Some(ScreenshotFormat::Png) <==> three && is_letter(
                    name[0],
                    'p',
                    'P',
                ) && is_letter(name[1], 'n', 'N') && is_letter(name[2], 'g', 'G')
                &&& format_for(path) == Some(ScreenshotFormat::Ppm) <==> three && is_letter(
                    name[0],
                    'p',
                    'P',
                ) && is_letter(name[1], 'p', 'P') && is_letter(name[2], 'm', 'M')
                &&& format_for(path) == Some(ScreenshotFormat::Raw) <==> three && is_letter(
                    name[0],
                    'r',
                    'R',
                ) && is_letter(name[1], 'a', 'A') && is_letter(name[2], 'w', 'W')
                &&& lower_extension(path) is Some
                &&& lower_extension(path)->0.len() == name.len()
            },
            None => format_for(path) is None && lower_extension(path) is None,
        },
{
    reveal_strlit("png");
    reveal_strlit("ppm");
    reveal_strlit("raw");
    if let Some(name) = text::path_extension(path) {
        let lower = lower_extension(path)->0;
        assert(lower.len() == name.len());
        if name.len() == 3 {
            lemma_small_letter(name[0]);
            lemma_small_letter(name[1]);
            lemma_small_letter(name[2]);
            assert(lower[0] == text::ascii_lowercase(name[0]));
            assert(lower[1] == text::ascii_lowercase(name[1]));
            assert(lower[2] == text::ascii_lowercase(name[2]));
            assert("png"@ =~= seq!['p', 'n', 'g']);
            assert("ppm"@ =~= seq!['p', 'p', 'm']);
            assert("raw"@ =~= seq!['r', 'a', 'w']);
            assert(lower =~= seq![lower[0], lower[1], lower[2]]);
            assert(lower == "png"@ <==> lower =~= "png"@);
            assert(lower == "ppm"@ <==> lower =~= "ppm"@);
            assert(lower == "raw"@ <==> lower =~= "raw"@);
            assert("png"@[1] != "ppm"@[1]);
        } else {
            assert(lower.len() != "png"@.len());
            assert(lower.len() != "ppm"@.len());
            assert(lower.len() != "raw"@.len());
        }
    }
}

proof fn lemma_small_letter(character: char)
    ensures
        text::ascii_lowercase(character) == 'p' <==> is_letter(character, 'p', 'P'),
        text::ascii_lowercase(character) == 'n' <==> is_letter(character, 'n', 'N'),
        text::ascii_lowercase(character) == 'g' <==> is_letter(character, 'g', 'G'),
        text::ascii_lowercase(character) == 'm' <==> is_letter(character, 'm', 'M'),
        text::ascii_lowercase(character) == 'r' <==> is_letter(character, 'r', 'R'),
        text::ascii_lowercase(character) == 'a' <==> is_letter(character, 'a', 'A'),
        text::ascii_lowercase(character) == 'w' <==> is_letter(character, 'w', 'W'),
{
}

/// A portable pixmap says what it is, how wide and how high it is, and that colors go up to
/// two hundred and fifty-five, in three lines.
pub proof fn lemma_pixmaps_state_their_size(width: u32, height: u32)
    ensures
        ppm_header(width, height) == seq!['P', '6', '\n'] + text::decimal(width as nat) + seq![' ']
            + text::decimal(height as nat) + seq!['\n', '2', '5', '5', '\n'],
{
    reveal_strlit("P6\n");
    reveal_strlit(" ");
    reveal_strlit("\n255\n");
    assert("P6\n"@ =~= seq!['P', '6', '\n']);
    assert(" "@ =~= seq![' ']);
    assert("\n255\n"@ =~= seq!['\n', '2', '5', '5', '\n']);
}

/// An image has four bytes for each of its pixels: every further row needs as many as four
/// times its width.
pub proof fn lemma_pixels_take_four_bytes(shot: ScreenshotJob, taller: ScreenshotJob)
    requires
        taller.width == shot.width,
        taller.height == shot.height + 1,
    ensures
        taller.expected() == shot.expected() + 4 * shot.width,
        shot.height == 0 ==> shot.expected() == 0,
{
    assert(shot.width * (shot.height + 1) * 4 == shot.width * shot.height * 4 + 4 * shot.width)
        by (nonlinear_arith);
    assert(shot.height == 0 ==> shot.width * shot.height * 4 == 0) by (nonlinear_arith);
}

/// An image without columns is refused for its width, and one with columns and without rows
/// for its height.
pub proof fn lemma_empty_images_are_refused(width: u32)
    ensures
        width == 0 ==> empty_image_report(width) == "Zero width not allowed"@,
        width > 0 ==> empty_image_report(width) == "Zero height not allowed"@,
{
}

} // verus!
