//! Decoding texture images, with the format chosen from the MIME type that a
//! glTF file gives for an embedded image.

use image::{DynamicImage, ImageFormat};
use vstd::prelude::*;

verus! {

#[verifier::external_type_specification]
#[verifier::external_body]
pub struct ExDynamicImage(DynamicImage);

/// The encodings a texture may be given in.
#[derive(PartialEq, Eq, Structural)]
pub enum EncodedFormat {
    Png,
    Jpeg,
}

/// What `image::load_from_memory` gives for `bytes` (guessing the format
/// from their first bytes): the decoded image, or `None` where it returns an
/// error. Decoding reads nothing but the bytes.
pub uninterp spec fn decoded_with_guessed_format(bytes: Seq<u8>) -> Option<DynamicImage>;

/// What `image::load_from_memory_with_format` gives for `bytes` in `format`:
/// the decoded image, or `None` where it returns an error.
pub uninterp spec fn decoded_with_format(bytes: Seq<u8>, format: EncodedFormat) -> Option<DynamicImage>;

/// Calls `image::load_from_memory`; the decoded image, `None` when it returns
/// an error. The image crate reports malformed input through that error
/// result; that none of its decoders panics on some input is taken from that
/// promise, not from reading each decoder.
#[verifier::external_body]
fn load_from_memory(bytes: &[u8]) -> (r: Option<DynamicImage>)
    ensures
        r == decoded_with_guessed_format(bytes@),
{
    image::load_from_memory(bytes).ok()
}

/// Calls `image::load_from_memory_with_format` with `ImageFormat::Png` or
/// `ImageFormat::Jpeg`; the decoded image, `None` when it returns an error
/// (relied on as for `load_from_memory`).
#[verifier::external_body]
fn load_from_memory_with_format(bytes: &[u8], format: EncodedFormat) -> (r: Option<DynamicImage>)
    ensures
        r == decoded_with_format(bytes@, format),
{
    let image_format = match format {
        EncodedFormat::Png => ImageFormat::Png,
        EncodedFormat::Jpeg => ImageFormat::Jpeg,
    };
    image::load_from_memory_with_format(bytes, image_format).ok()
}

/// The MIME type as text, if given.
pub open spec fn mime_view(mime_type: Option<String>) -> Option<Seq<char>> {
    match mime_type {
        Some(m) => Some(m@),
        None => None,
    }
}

/// The image that the bytes decode to as the MIME type says: with a guessed
/// format when none is given, as PNG for `image/png`, as JPEG for
/// `image/jpeg`; `None` where decoding fails or the MIME type is another.
pub open spec fn decoded_image(bytes: Seq<u8>, mime_type: Option<Seq<char>>) -> Option<DynamicImage> {
    match mime_type {
        None => decoded_with_guessed_format(bytes),
        Some(m) => if m == "image/png"@ {
            decoded_with_format(bytes, EncodedFormat::Png)
        } else if m == "image/jpeg"@ {
            decoded_with_format(bytes, EncodedFormat::Jpeg)
        } else {
            None
        },
    }
}

/// Whether the bytes decode as the MIME type says (see `decoded_image`).
pub open spec fn image_decodes(bytes: Seq<u8>, mime_type: Option<Seq<char>>) -> bool {
    decoded_image(bytes, mime_type) is Some
}

/// The decoder a MIME type selects: with no MIME type the format is guessed
/// from the bytes, as `image::load_from_memory` does; `image/png` and
/// `image/jpeg` decode as PNG and JPEG; any other MIME type decodes nothing.
pub proof fn lemma_decoder_by_mime(bytes: Seq<u8>, mime_type: Option<Seq<char>>)
    ensures
        mime_type is None ==> decoded_image(bytes, mime_type) == decoded_with_guessed_format(bytes),
        mime_type == Some("image/png"@) ==> decoded_image(bytes, mime_type) == decoded_with_format(
            bytes,
            EncodedFormat::Png,
        ),
        mime_type == Some("image/jpeg"@) ==> decoded_image(bytes, mime_type) == decoded_with_format(
            bytes,
            EncodedFormat::Jpeg,
        ),
        mime_type is Some && mime_type != Some("image/png"@) && mime_type != Some("image/jpeg"@) ==> decoded_image(
            bytes,
            mime_type,
        ) is None,
{
    lemma_mime_types_differ();
}

/// Whether the MIME type is one this loader handles.
pub open spec fn mime_supported(mime_type: Option<Seq<char>>) -> bool {
    match mime_type {
        None => true,
        Some(m) => m == "image/png"@ || m == "image/jpeg"@,
    }
}

/// The two supported MIME types differ.
proof fn lemma_mime_types_differ()
    ensures
        "image/png"@ != "image/jpeg"@,
{
    reveal_strlit("image/png");
    reveal_strlit("image/jpeg");
    assert("image/png"@.len() != "image/jpeg"@.len());
}

/// Which decoder a MIME type selects: `None` to guess the format.
fn format_for_mime(mime_type: &Option<String>) -> (r: Option<Option<EncodedFormat>>)
    ensures
        r is Some <==> mime_supported(mime_view(*mime_type)),
        r matches Some(None) ==> mime_type is None,
        r matches Some(Some(f)) ==> (match mime_view(*mime_type) {
            Some(m) => (m == "image/png"@ && f == EncodedFormat::Png) || (m == "image/jpeg"@
                && f == EncodedFormat::Jpeg),
            None => false,
        }),
{
    match mime_type {
        None => Some(None),
        Some(m) => {
            if *m == String::from_str("image/png") {
                Some(Some(EncodedFormat::Png))
            } else if *m == String::from_str("image/jpeg") {
                Some(Some(EncodedFormat::Jpeg))
            } else {
                None
            }
        },
    }
}

/// Decodes a texture image, choosing the decoder by MIME type (see
/// `decoded_image`). The bytes must decode that way.
pub fn dynamic_image_from_bytes(bytes: &[u8], _label: &str, mime_type: Option<String>) -> (r: DynamicImage)
    requires
        image_decodes(bytes@, mime_view(mime_type)),
    ensures
        decoded_image(bytes@, mime_view(mime_type)) == Some(r),
        mime_type is None ==> decoded_with_guessed_format(bytes@) == Some(r),
        mime_view(mime_type) == Some("image/png"@) ==> decoded_with_format(bytes@, EncodedFormat::Png) == Some(r),
        mime_view(mime_type) == Some("image/jpeg"@) ==> decoded_with_format(bytes@, EncodedFormat::Jpeg) == Some(r),
{
    proof {
        lemma_mime_types_differ();
        lemma_decoder_by_mime(bytes@, mime_view(mime_type));
    }
    let decoded = match format_for_mime(&mime_type).unwrap() {
        None => load_from_memory(bytes),
        Some(format) => load_from_memory_with_format(bytes, format),
    };
    decoded.unwrap()
}

/// Decodes a texture image as `dynamic_image_from_bytes` does when the bytes
/// decode as their MIME type says, and returns `None` otherwise.
pub fn try_dynamic_image_from_bytes(bytes: &[u8], label: &str, mime_type: Option<String>) -> (r: Option<
    DynamicImage,
>)
    ensures
        r == decoded_image(bytes@, mime_view(mime_type)),
        mime_type is None ==> r == decoded_with_guessed_format(bytes@),
        mime_view(mime_type) == Some("image/png"@) ==> r == decoded_with_format(bytes@, EncodedFormat::Png),
        mime_view(mime_type) == Some("image/jpeg"@) ==> r == decoded_with_format(bytes@, EncodedFormat::Jpeg),
        mime_type is Some && mime_view(mime_type) != Some("image/png"@) && mime_view(mime_type) != Some(
            "image/jpeg"@,
        ) ==> r is None,
{
    proof {
        lemma_mime_types_differ();
        lemma_decoder_by_mime(bytes@, mime_view(mime_type));
    }
    let probe = match format_for_mime(&mime_type) {
        Some(None) => load_from_memory(bytes),
        Some(Some(format)) => load_from_memory_with_format(bytes, format),
        None => None,
    };
    if probe.is_some() {
        Some(dynamic_image_from_bytes(bytes, label, mime_type))
    } else {
        None
    }
}

} // verus!
