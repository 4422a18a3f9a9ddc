//! Normalizing an image for upload.
//!
//! An image of any recognized format is decoded, scaled down if it is larger
//! than the service accepts, and written out again as PNG. Decoding, resampling
//! and encoding are the work of the `image` crate; what is decided here is
//! how the format is found, whether to scale, what the caller is told about
//! the result, and which error stands for which failure.
//!
//! The format is read from the content, by the signatures that the `image`
//! crate knows; only where the content bears none does the extension of a
//! file name decide. Formats that a program registers with the `image` crate
//! at run time play no part: the same bytes give the same image in every
//! process.

use vstd::prelude::*;
use crate::constants::DEFAULT_IMAGE_MAX_DIMENSION;
use crate::error::{LensError, LensErrorView};

verus! {

/// `image::DynamicImage`: a decoded image, carried through as it is.
#[verifier::external_type_specification]
#[verifier::external_body]
pub struct ExDynamicImage(image::DynamicImage);

/// `image::ImageFormat`: one of the formats that the `image` crate knows.
#[verifier::external_type_specification]
#[verifier::external_body]
pub struct ExImageFormat(image::ImageFormat);

/// An image that is ready for upload.
#[derive(Clone, Debug, PartialEq, Eq)]
pub struct ProcessedImage {
    /// The image in PNG form.
    pub bytes: Vec<u8>,
    /// Width in pixels, after any scaling.
    pub width: i32,
    /// Height in pixels, after any scaling.
    pub height: i32,
}

/// Model of [`ProcessedImage`].
pub ghost struct ProcessedImageView {
    pub bytes: Seq<u8>,
    pub width: i32,
    pub height: i32,
}

impl View for ProcessedImage {
    type V = ProcessedImageView;

    open spec fn view(&self) -> ProcessedImageView {
        ProcessedImageView { bytes: self.bytes@, width: self.width, height: self.height }
    }
}

/// The model of an outcome of normalization.
pub open spec fn image_outcome(result: Result<ProcessedImage, LensError>) -> Result<
    ProcessedImageView,
    LensErrorView,
> {
    match result {
        Ok(image) => Ok(image@),
        Err(error) => Err(error@),
    }
}

/// A format, and where it was found: in the content that `content` holds
/// (then `extension` is `None`), or in an extension.
struct FoundFormat {
    format: image::ImageFormat,
    extension: Ghost<Option<Seq<char>>>,
    content: Ghost<Seq<u8>>,
}

/// A decoded image together with its size in pixels. It remembers the bytes
/// it was decoded from and the extension that gave the format, if one did.
pub struct DecodedImage {
    width: u32,
    height: u32,
    pixels: image::DynamicImage,
    source: Ghost<Seq<u8>>,
    extension: Ghost<Option<Seq<char>>>,
}

impl DecodedImage {
    /// Width in pixels.
    pub closed spec fn spec_width(&self) -> u32 {
        self.width
    }

    /// Height in pixels.
    pub closed spec fn spec_height(&self) -> u32 {
        self.height
    }

    /// The bytes that the image was decoded from.
    pub closed spec fn source(&self) -> Seq<u8> {
        self.source@
    }

    /// Where the format was taken from: `None` for the content, the
    /// extension otherwise.
    pub closed spec fn origin(&self) -> Option<Seq<char>> {
        self.extension@
    }

    /// Whether the image is as the decoder gave it: not scaled.
    pub open spec fn as_decoded(&self) -> bool {
        decoded_size(self.source(), self.origin()) == Some((self.spec_width(), self.spec_height()))
    }

    /// Width in pixels.
    #[verifier::when_used_as_spec(spec_width)]
    pub fn width(&self) -> (w: u32)
        ensures
            w == self.spec_width(),
    {
        self.width
    }

    /// Height in pixels.
    #[verifier::when_used_as_spec(spec_height)]
    pub fn height(&self) -> (h: u32)
        ensures
            h == self.spec_height(),
    {
        self.height
    }

    /// Decodes the image in `data`, the content of a file whose name has
    /// the given extension, if it has one.
    ///
    /// The format is the one whose signature the content bears; where it
    /// bears none, the extension decides. Yields `None` exactly where no
    /// format is found or `data` is not an image of the format that is.
    pub fn decode(data: &[u8], extension: Option<&str>) -> (r: Option<DecodedImage>)
        ensures
            match r {
                Some(img) => {
                    &&& format_source(data@, name_of(extension)) == Some(img.origin())
                    &&& img.source() == data@
                    &&& img.as_decoded()
                },
                None => source_size(data@, name_of(extension)) is None,
            },
    {
        let by_content: Option<FoundFormat> = format_by_content(data);
        let found: Option<FoundFormat> = match by_content {
            Some(found) => Some(found),
            None => match extension {
                Some(name) => format_by_extension(name),
                None => None,
            },
        };
        match found {
            Some(found) => decode_image(data, &found),
            None => None,
        }
    }
}

/// Whether `data` starts with the signature of a format.
pub uninterp spec fn has_signature(data: Seq<u8>) -> bool;

/// Whether `extension` is the extension of a format.
pub uninterp spec fn knows_extension(extension: Seq<char>) -> bool;

/// The size in pixels of the image that `data` holds, or `None` where `data`
/// is not an image of its format. The format is the one whose signature
/// `data` bears where `extension` is `None`, and the one of the extension
/// otherwise.
pub uninterp spec fn decoded_size(data: Seq<u8>, extension: Option<Seq<char>>) -> Option<
    (u32, u32),
>;

/// The size to which an image of the given size is scaled so that it fits
/// within `max_width` by `max_height`.
pub uninterp spec fn fitted_size(width: u32, height: u32, max_width: u32, max_height: u32) -> (
    u32,
    u32,
);

/// The PNG form of the image that `data` holds, read in the format that
/// [`decoded_size`] speaks of and brought to the given size, or `None`
/// where the encoder fails.
pub uninterp spec fn png_of(
    data: Seq<u8>,
    extension: Option<Seq<char>>,
    width: u32,
    height: u32,
) -> Option<Seq<u8>>;

/// Where the format of an image is taken from: `Some(None)` for the content,
/// `Some(Some(extension))` for the extension, `None` where neither gives
/// one. The content comes first.
pub open spec fn format_source(data: Seq<u8>, extension: Option<Seq<char>>) -> Option<
    Option<Seq<char>>,
> {
    if has_signature(data) {
        Some(None)
    } else {
        match extension {
            Some(name) => if knows_extension(name) {
                Some(Some(name))
            } else {
                None
            },
            None => None,
        }
    }
}

/// Whether either side of an image is longer than may be uploaded.
pub open spec fn exceeds_limit(width: u32, height: u32) -> bool {
    width > DEFAULT_IMAGE_MAX_DIMENSION || height > DEFAULT_IMAGE_MAX_DIMENSION
}

/// The size of an image after normalization: scaled to fit the limit where it
/// exceeds it, unchanged otherwise.
pub open spec fn normalized_size(width: u32, height: u32) -> (u32, u32) {
    if exceeds_limit(width, height) {
        fitted_size(width, height, DEFAULT_IMAGE_MAX_DIMENSION, DEFAULT_IMAGE_MAX_DIMENSION)
    } else {
        (width, height)
    }
}

/// Whether a scaled size keeps the proportions of the source up to the
/// rounding of one pixel: the scaled side that is not at its bound lies
/// within one pixel of where exact scaling would put it.
pub open spec fn within_one_pixel(width: u32, height: u32, new_width: u32, new_height: u32)
    -> bool {
    let skew = new_width * height - new_height * width;
    let longer = if width >= height {
        width
    } else {
        height
    };
    -longer <= skew <= longer
}

/// What holds of the size `(new_width, new_height)` to which an image of
/// size `(width, height)` was scaled to fit within `max_width` by
/// `max_height`: both sides are positive and within their bounds, and, for
/// an image with pixels, one side is at its bound and the proportions are
/// kept to within one pixel.
pub open spec fn fits_within(
    width: u32,
    height: u32,
    max_width: u32,
    max_height: u32,
    new_width: u32,
    new_height: u32,
) -> bool {
    &&& 1 <= new_width <= max_width
    &&& 1 <= new_height <= max_height
    &&& width >= 1 && height >= 1 ==> {
        &&& new_width == max_width || new_height == max_height
        &&& within_one_pixel(width, height, new_width, new_height)
    }
}

/// What holds of the size to which an image was scaled because it exceeded
/// the limit.
pub open spec fn fits_limit(width: u32, height: u32, new_width: u32, new_height: u32) -> bool {
    fits_within(
        width,
        height,
        DEFAULT_IMAGE_MAX_DIMENSION,
        DEFAULT_IMAGE_MAX_DIMENSION,
        new_width,
        new_height,
    )
}

/// What holds of the size that normalization reports for an image of size
/// `(width, height)`: it is within the limit on both sides; an image within
/// the limit keeps its size; one beyond it has a side at the limit and keeps
/// its proportions to within one pixel.
pub open spec fn size_is_normal(width: u32, height: u32) -> bool {
    &&& normalized_size(width, height).0 <= DEFAULT_IMAGE_MAX_DIMENSION
    &&& normalized_size(width, height).1 <= DEFAULT_IMAGE_MAX_DIMENSION
    &&& !exceeds_limit(width, height) ==> normalized_size(width, height) == (width, height)
    &&& exceeds_limit(width, height) ==> fits_limit(
        width,
        height,
        normalized_size(width, height).0,
        normalized_size(width, height).1,
    )
}

/// What comes of an image of the given size once the PNG encoder has
/// answered with `encoded`: the bytes with the size, or an error where a
/// side is zero or the encoder failed.
pub open spec fn finished(width: u32, height: u32, encoded: Option<Seq<u8>>) -> Result<
    ProcessedImageView,
    LensErrorView,
> {
    if width == 0 || height == 0 {
        Err(LensErrorView::ImageEncode)
    } else {
        match encoded {
            Some(bytes) => Ok(
                ProcessedImageView { bytes, width: width as i32, height: height as i32 },
            ),
            None => Err(LensErrorView::ImageEncode),
        }
    }
}

/// What comes of the bytes `data`, read in the format that `source` names:
/// a decode error where they are no image of that format, and otherwise the
/// PNG form of the image at its normalized size.
pub open spec fn normalized_as(data: Seq<u8>, source: Option<Seq<char>>) -> Result<
    ProcessedImageView,
    LensErrorView,
> {
    match decoded_size(data, source) {
        Some((width, height)) => finished(
            normalized_size(width, height).0,
            normalized_size(width, height).1,
            png_of(
                data,
                source,
                normalized_size(width, height).0,
                normalized_size(width, height).1,
            ),
        ),
        None => Err(LensErrorView::ImageDecode),
    }
}

/// What comes of the bytes `data` of a file with the given extension, if it
/// has one: a decode error where neither content nor extension gives a
/// format or the bytes are no image of it, and otherwise the PNG form of the
/// image at its normalized size.
pub open spec fn normalized_file(data: Seq<u8>, extension: Option<Seq<char>>) -> Result<
    ProcessedImageView,
    LensErrorView,
> {
    match format_source(data, extension) {
        Some(source) => normalized_as(data, source),
        None => Err(LensErrorView::ImageDecode),
    }
}

/// What comes of the bytes `data`, whose content alone gives the format.
pub open spec fn normalized(data: Seq<u8>) -> Result<ProcessedImageView, LensErrorView> {
    normalized_file(data, None)
}

/// The size of the image that `data` holds, as far as normalization gets to
/// know it.
pub open spec fn source_size(data: Seq<u8>, extension: Option<Seq<char>>) -> Option<(u32, u32)> {
    match format_source(data, extension) {
        Some(source) => decoded_size(data, source),
        None => None,
    }
}

/// The model of the answer of the PNG encoder.
pub open spec fn encoder_answer(encoded: Option<Vec<u8>>) -> Option<Seq<u8>> {
    match encoded {
        Some(bytes) => Some(bytes@),
        None => None,
    }
}

/// Finds the format of an image from the signature at the start of its
/// content.
///
/// Trusted: `image::guess_format` compares the start of the bytes with a
/// fixed table of signatures and reads nothing else, so whether it finds a
/// format is a function of the bytes ([`has_signature`] names it), and so is
/// the format it finds.
#[verifier::external_body]
fn format_by_content(data: &[u8]) -> (r: Option<FoundFormat>)
    ensures
        r is Some <==> has_signature(data@),
        r matches Some(found) ==> found.extension@ is None && found.content@ == data@,
{
    match image::guess_format(data) {
        Ok(format) => Some(FoundFormat { format, extension: Ghost(None), content: Ghost(data@) }),
        Err(_) => None,
    }
}

/// Finds the format that an extension stands for.
///
/// Trusted: `image::ImageFormat::from_extension` looks the extension up,
/// without regard to case, in a fixed list and reads nothing else, so
/// whether it finds a format is a function of the extension
/// ([`knows_extension`] names it), and so is the format it finds.
#[verifier::external_body]
fn format_by_extension(extension: &str) -> (r: Option<FoundFormat>)
    ensures
        r is Some <==> knows_extension(extension@),
        r matches Some(found) ==> found.extension@ == Some(extension@),
{
    match image::ImageFormat::from_extension(extension) {
        Some(format) => Some(
            FoundFormat {
                format,
                extension: Ghost(Some(extension@)),
                content: Ghost(Seq::empty()),
            },
        ),
        None => None,
    }
}

/// Decodes an image in the format that was found for it.
///
/// Trusted: `image::load_from_memory_with_format` sets up the decoder of
/// the given format over the bytes and consults no table that a program can
/// change, so whether it succeeds and the size of what it yields are
/// functions of the bytes and of the format; the format is in turn a
/// function of the bytes or of the extension. [`decoded_size`] names the
/// size. Width and height are what `DynamicImage::width` and
/// `DynamicImage::height` report.
#[verifier::external_body]
fn decode_image(data: &[u8], found: &FoundFormat) -> (r: Option<DecodedImage>)
    requires
        found.extension@ is None ==> found.content@ == data@,
    ensures
        match r {
            Some(img) => {
                &&& img.source@ == data@
                &&& img.extension@ == found.extension@
                &&& img.as_decoded()
            },
            None => decoded_size(data@, found.extension@) is None,
        },
{
    match image::load_from_memory_with_format(data, found.format) {
        Ok(pixels) => Some(
            DecodedImage {
                width: pixels.width(),
                height: pixels.height(),
                pixels,
                source: Ghost(data@),
                extension: Ghost(found.extension@),
            },
        ),
        Err(_) => None,
    }
}

/// Scales an image as the decoder gave it so that it fits within
/// `max_width` by `max_height`, with the Lanczos filter of window 3.
///
/// Trusted: `DynamicImage::resize` picks the new size from the old size and
/// the bounds alone ([`fitted_size`] names it). As documented, the result
/// fits within the bounds, is as large as that allows, and keeps the
/// proportions. The source shows how: both sides are multiplied by the
/// smaller of the two ratios of bound to side, rounded to the nearest pixel
/// and raised to one pixel where they would vanish. The side that sets the
/// ratio thus lands on its bound, and the other stays within its own bound
/// and within a pixel of exact scaling.
#[verifier::external_body]
fn resize_lanczos3(image: &DecodedImage, max_width: u32, max_height: u32) -> (r: DecodedImage)
    requires
        max_width >= 1,
        max_height >= 1,
        image.as_decoded(),
    ensures
        (r.width, r.height) == fitted_size(image.width, image.height, max_width, max_height),
        fits_within(image.width, image.height, max_width, max_height, r.width, r.height),
        r.source@ == image.source@,
        r.extension@ == image.extension@,
{
    let pixels = image.pixels.resize(max_width, max_height, image::imageops::FilterType::Lanczos3);
    DecodedImage {
        width: pixels.width(),
        height: pixels.height(),
        pixels,
        source: Ghost(image.source@),
        extension: Ghost(image.extension@),
    }
}

/// Writes an image out as PNG. Yields `None` where the encoder fails.
///
/// Trusted: `DynamicImage::write_to` with the PNG format, into a buffer in
/// memory, reads nothing but the image, so its answer is a function of the
/// image. The image is in turn given by the bytes it was decoded from, the
/// format they were read in and the size it was brought to, since scaling
/// to a given size always gives the same pixels. [`png_of`] names the
/// answer.
#[verifier::external_body]
fn encode_png(image: &DecodedImage) -> (r: Option<Vec<u8>>)
    ensures
        encoder_answer(r) == png_of(
            image.source@,
            image.extension@,
            image.width,
            image.height,
        ),
{
    let mut bytes: Vec<u8> = Vec::new();
    match image.pixels.write_to(&mut std::io::Cursor::new(&mut bytes), image::ImageFormat::Png) {
        Ok(()) => Some(bytes),
        Err(_) => None,
    }
}

/// Puts together the result of a normalization from the size of the image
/// and the answer of the PNG encoder.
///
/// An image without pixels and a failure of the encoder both give
/// [`LensError::ImageEncode`]; otherwise the result carries the encoded
/// bytes unchanged and the size as given.
pub fn finish_image(width: u32, height: u32, encoded: Option<Vec<u8>>) -> (r: Result<
    ProcessedImage,
    LensError,
>)
    requires
        width <= DEFAULT_IMAGE_MAX_DIMENSION,
        height <= DEFAULT_IMAGE_MAX_DIMENSION,
    ensures
        image_outcome(r) == finished(width, height, encoder_answer(encoded)),
{
    if width == 0 || height == 0 {
        return Err(LensError::ImageEncode);
    }
    match encoded {
        Some(bytes) => Ok(ProcessedImage { bytes, width: width as i32, height: height as i32 }),
        None => Err(LensError::ImageEncode),
    }
}

/// Normalizes a decoded image: scales it down where a side exceeds the
/// limit, never up, and encodes it as PNG.
///
/// Succeeds exactly where the normalized image has pixels and the encoder
/// yields its PNG form; the result then carries that form and the
/// normalized size. That size is within the limit on both sides. An image
/// that was within the limit keeps its size. One that was not has a side at
/// the limit and keeps its proportions to within one pixel.
pub fn process_image_internal(img: DecodedImage) -> (r: Result<ProcessedImage, LensError>)
    requires
        img.as_decoded(),
    ensures
        image_outcome(r) == normalized_as(img.source(), img.origin()),
        image_outcome(r) == finished(
            normalized_size(img.width(), img.height()).0,
            normalized_size(img.width(), img.height()).1,
            png_of(
                img.source(),
                img.origin(),
                normalized_size(img.width(), img.height()).0,
                normalized_size(img.width(), img.height()).1,
            ),
        ),
        size_is_normal(img.width(), img.height()),
{
    let w: u32 = img.width;
    let h: u32 = img.height;
    let scaled: DecodedImage = if w > DEFAULT_IMAGE_MAX_DIMENSION || h
        > DEFAULT_IMAGE_MAX_DIMENSION {
        resize_lanczos3(&img, DEFAULT_IMAGE_MAX_DIMENSION, DEFAULT_IMAGE_MAX_DIMENSION)
    } else {
        img
    };
    let encoded: Option<Vec<u8>> = encode_png(&scaled);
    finish_image(scaled.width, scaled.height, encoded)
}

/// Normalizes the image in `data`, the content of a file whose name has the
/// given extension, if it has one.
///
/// The format is the one whose signature the content bears; where it bears
/// none, the extension decides. Fails with [`LensError::ImageDecode`]
/// exactly where no format is found or `data` is not an image of the format
/// that is. Otherwise the image is scaled down where a side exceeds the
/// limit, never up, and written out as PNG; an image without pixels and a
/// failure of the encoder give [`LensError::ImageEncode`].
///
/// The size that is reported is within the limit on both sides. An image
/// that was within the limit keeps its size. One that was not has a side at
/// the limit and keeps its proportions to within one pixel.
pub fn process_image_file(data: &[u8], extension: Option<&str>) -> (r: Result<
    ProcessedImage,
    LensError,
>)
    ensures
        image_outcome(r) == normalized_file(data@, name_of(extension)),
        source_size(data@, name_of(extension)) matches Some((w, h)) ==> size_is_normal(w, h),
{
    match DecodedImage::decode(data, extension) {
        Some(img) => process_image_internal(img),
        None => Err(LensError::ImageDecode),
    }
}

/// The model of an optional extension.
pub open spec fn name_of(extension: Option<&str>) -> Option<Seq<char>> {
    match extension {
        Some(name) => Some(name@),
        None => None,
    }
}

/// Normalizes the image that `data` holds, finding its format from its
/// content.
///
/// Fails with [`LensError::ImageDecode`] exactly where `data` is not an image
/// in a recognized format. Otherwise the image is scaled down where a side
/// exceeds the limit, never up, and written out as PNG; an image without
/// pixels and a failure of the encoder give [`LensError::ImageEncode`].
///
/// The size that is reported is within the limit on both sides. An image
/// that was within the limit keeps its size. One that was not has a side at
/// the limit and keeps its proportions to within one pixel.
pub fn process_image_from_bytes(data: &[u8]) -> (r: Result<ProcessedImage, LensError>)
    ensures
        image_outcome(r) == normalized(data@),
        source_size(data@, None) matches Some((w, h)) ==> size_is_normal(w, h),
{
    process_image_file(data, None)
}

} // verus!
