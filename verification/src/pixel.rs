use vstd::prelude::*;
use crate::document::{ImageData, PixelFormat};
use crate::error::SceneError;

verus! {

/// How many bytes one pixel occupies in a given source layout; zero for
/// a layout the converter does not support.
pub open spec fn bytes_per_pixel(f: PixelFormat) -> nat {
    match f {
        PixelFormat::R8 => 1,
        PixelFormat::R8G8 => 2,
        PixelFormat::R8G8B8 => 3,
        PixelFormat::R8G8B8A8 => 4,
        PixelFormat::B8G8R8 => 3,
        PixelFormat::B8G8R8A8 => 4,
        PixelFormat::Other => 0,
    }
}

/// Whether the converter supports a source layout.
pub open spec fn format_supported(f: PixelFormat) -> bool {
    !(f is Other)
}

/// The four output bytes — blue, green, red, alpha — of source pixel `k`.
/// A single red channel is replicated to all three color channels; a
/// red-green pair keeps its channels in place with blue zero; layouts
/// without alpha become fully opaque.
pub open spec fn bgra_pixel(f: PixelFormat, pixels: Seq<u8>, k: int) -> Seq<u8> {
    let base = k * bytes_per_pixel(f);
    match f {
        PixelFormat::R8 => seq![pixels[base], pixels[base], pixels[base], 255u8],
        PixelFormat::R8G8 => seq![0u8, pixels[base + 1], pixels[base], 255u8],
        PixelFormat::R8G8B8 => seq![pixels[base + 2], pixels[base + 1], pixels[base], 255u8],
        PixelFormat::R8G8B8A8 => seq![
            pixels[base + 2],
            pixels[base + 1],
            pixels[base],
            pixels[base + 3],
        ],
        PixelFormat::B8G8R8 => seq![pixels[base], pixels[base + 1], pixels[base + 2], 255u8],
        PixelFormat::B8G8R8A8 => seq![
            pixels[base],
            pixels[base + 1],
            pixels[base + 2],
            pixels[base + 3],
        ],
        PixelFormat::Other => seq![0u8, 0u8, 0u8, 0u8],
    }
}

/// The whole converted image: four bytes per source pixel, pixels in
/// source order.
pub open spec fn bgra8_of(f: PixelFormat, pixels: Seq<u8>) -> Seq<u8>
    recommends
        format_supported(f),
{
    Seq::new(
        4 * (pixels.len() / bytes_per_pixel(f)),
        |i: int| bgra_pixel(f, pixels, i / 4)[i % 4],
    )
}

/// The fatal error an image triggers in the converter, if any: its
/// layout must be supported and its byte length must match its declared
/// dimensions exactly.
pub open spec fn image_error(img: ImageData) -> Option<SceneError> {
    if !format_supported(img.format) {
        Some(SceneError::UnsupportedPixelFormat)
    } else if img.pixels@.len() != img.width * img.height * bytes_per_pixel(img.format) {
        Some(SceneError::ImageSizeMismatch)
    } else {
        None
    }
}

/// What `convert_image_to_bgra8` returns: the converted bytes — four per
/// pixel — when the image is well-formed, and the image's fatal error
/// otherwise.
pub open spec fn convert_outcome(r: Result<Vec<u8>, SceneError>, img: ImageData) -> bool {
    match r {
        Ok(out) => {
            &&& image_error(img) is None
            &&& out@ == bgra8_of(img.format, img.pixels@)
            &&& out@.len() == 4 * (img.width * img.height)
        },
        Err(e) => image_error(img) == Some(e),
    }
}

/// Converts a decoded image into the fixed blue-green-red-alpha 8-bit
/// layout that device images use, one deterministic mapping per
/// supported source layout. An unrecognised layout is a fatal, explicit
/// error, as is a pixel byte length that does not match the declared
/// width, height and layout.
pub fn convert_image_to_bgra8(img: &ImageData) -> (r: Result<Vec<u8>, SceneError>)
    ensures
        convert_outcome(r, *img),
{
    let bpp: usize = match img.format {
        PixelFormat::R8 => 1,
        PixelFormat::R8G8 => 2,
        PixelFormat::R8G8B8 => 3,
        PixelFormat::R8G8B8A8 => 4,
        PixelFormat::B8G8R8 => 3,
        PixelFormat::B8G8R8A8 => 4,
        PixelFormat::Other => {
            return Err(SceneError::UnsupportedPixelFormat);
        },
    };
    let len = img.pixels.len();
    proof {
        assert((img.width as u128) * (img.height as u128) < 0x1_0000_0000_0000_0000u128)
            by (nonlinear_arith)
            requires
                img.width <= 0xFFFF_FFFFu32,
                img.height <= 0xFFFF_FFFFu32,
        {
        }
    }
    let wh: u128 = (img.width as u128) * (img.height as u128);
    if (len as u128) != wh * (bpp as u128) {
        proof {
            assert(img.pixels@.len() != img.width * img.height * bytes_per_pixel(img.format))
                by (nonlinear_arith)
                requires
                    img.pixels@.len() != (img.width as int) * (img.height as int) * (
                    bytes_per_pixel(img.format) as int),
            {
            }
        }
        return Err(SceneError::ImageSizeMismatch);
    }
    let num_pixels = len / bpp;
    proof {
        assert(len == num_pixels * bpp) by (nonlinear_arith)
            requires
                num_pixels == len / bpp,
                len == img.width * img.height * bpp,
                0 < bpp,
        {
        }
        assert(num_pixels == img.width * img.height) by (nonlinear_arith)
            requires
                len == num_pixels * bpp,
                len == img.width * img.height * bpp,
                0 < bpp,
        {
        }
        assert(num_pixels == img.pixels@.len() / bytes_per_pixel(img.format));
    }
    let mut out: Vec<u8> = Vec::new();
    let mut k: usize = 0;
    while k < num_pixels
        invariant
            k <= num_pixels,
            len == img.pixels@.len(),
            len == num_pixels * bpp,
            bpp == bytes_per_pixel(img.format),
            format_supported(img.format),
            num_pixels == img.pixels@.len() / bytes_per_pixel(img.format),
            num_pixels == img.width * img.height,
            out@ == bgra8_of(img.format, img.pixels@).take(4 * k as int),
        decreases num_pixels - k,
    {
        proof {
            assert((k + 1) * bpp <= num_pixels * bpp) by (nonlinear_arith)
                requires
                    k < num_pixels,
                    0 < bpp,
            {
            }
            assert(k * bpp + bpp <= len) by (nonlinear_arith)
                requires
                    (k + 1) * bpp <= num_pixels * bpp,
                    len == num_pixels * bpp,
            {
            }
        }
        let base = k * bpp;
        let b0: u8;
        let b1: u8;
        let b2: u8;
        let b3: u8;
        match img.format {
            PixelFormat::R8 => {
                let v = img.pixels[base];
                b0 = v;
                b1 = v;
                b2 = v;
                b3 = 255;
            },
            PixelFormat::R8G8 => {
                b0 = 0;
                b1 = img.pixels[base + 1];
                b2 = img.pixels[base];
                b3 = 255;
            },
            PixelFormat::R8G8B8 => {
                b0 = img.pixels[base + 2];
                b1 = img.pixels[base + 1];
                b2 = img.pixels[base];
                b3 = 255;
            },
            PixelFormat::R8G8B8A8 => {
                b0 = img.pixels[base + 2];
                b1 = img.pixels[base + 1];
                b2 = img.pixels[base];
                b3 = img.pixels[base + 3];
            },
            PixelFormat::B8G8R8 => {
                b0 = img.pixels[base];
                b1 = img.pixels[base + 1];
                b2 = img.pixels[base + 2];
                b3 = 255;
            },
            PixelFormat::B8G8R8A8 => {
                b0 = img.pixels[base];
                b1 = img.pixels[base + 1];
                b2 = img.pixels[base + 2];
                b3 = img.pixels[base + 3];
            },
            PixelFormat::Other => {
                proof {
                    assert(false);
                }
                b0 = 0;
                b1 = 0;
                b2 = 0;
                b3 = 0;
            },
        }
        out.push(b0);
        out.push(b1);
        out.push(b2);
        out.push(b3);
        proof {
            let f = img.format;
            let px = img.pixels@;
            let kk = k as int;
            let sp = bgra8_of(f, px);
            assert(seq![b0, b1, b2, b3] =~= bgra_pixel(f, px, kk));
            assert forall|i: int| 4 * kk <= i < 4 * kk + 4 implies sp[i] == bgra_pixel(
                f,
                px,
                kk,
            )[i - 4 * kk] by {
                assert(i / 4 == kk);
                assert(i % 4 == i - 4 * kk);
            }
            assert(out@ =~= sp.take(4 * (kk + 1)));
        }
        k = k + 1;
    }
    proof {
        let sp = bgra8_of(img.format, img.pixels@);
        assert(sp.take(4 * num_pixels as int) =~= sp);
        assert(out@.len() == 4 * (img.width * img.height));
    }
    Ok(out)
}

/// One device-ready image: its dimensions and its pixel bytes in the
/// fixed blue-green-red-alpha layout.
#[derive(Clone, Debug, PartialEq, Eq)]
pub struct DeviceImage {
    pub width: u32,
    pub height: u32,
    pub data: Vec<u8>,
}

/// The first fatal error among a document's images, in document order.
pub open spec fn images_error(imgs: Seq<ImageData>) -> Option<SceneError>
    decreases imgs.len(),
{
    if imgs.len() == 0 {
        None
    } else {
        match image_error(imgs.first()) {
            Some(e) => Some(e),
            None => images_error(imgs.drop_first()),
        }
    }
}

/// Whether a device image is the converted form of a document image.
pub open spec fn device_image_models(d: DeviceImage, img: ImageData) -> bool {
    &&& d.width == img.width
    &&& d.height == img.height
    &&& d.data@ == bgra8_of(img.format, img.pixels@)
}

/// If every image before position `k` converts cleanly and the one at
/// `k` does not, the first conversion error is the one at `k`.
proof fn lemma_images_error_at(imgs: Seq<ImageData>, k: int)
    requires
        0 <= k < imgs.len(),
        forall|j: int| 0 <= j < k ==> image_error(#[trigger] imgs[j]) is None,
        !(image_error(imgs[k]) is None),
    ensures
        images_error(imgs) == image_error(imgs[k]),
    decreases k,
{
    if k > 0 {
        lemma_images_error_at(imgs.drop_first(), k - 1);
    }
}

/// If every image converts cleanly there is no conversion error.
proof fn lemma_images_error_none(imgs: Seq<ImageData>)
    requires
        forall|j: int| 0 <= j < imgs.len() ==> image_error(#[trigger] imgs[j]) is None,
    ensures
        images_error(imgs) is None,
    decreases imgs.len(),
{
    if imgs.len() > 0 {
        assert forall|j: int| 0 <= j < imgs.drop_first().len() implies image_error(
            #[trigger] imgs.drop_first()[j],
        ) is None by {
            assert(imgs.drop_first()[j] == imgs[j + 1]);
        }
        lemma_images_error_none(imgs.drop_first());
    }
}

/// What `create_device_images` returns: one converted image per document
/// image, index-aligned, or the first image's fatal error in document
/// order.
pub open spec fn images_outcome(r: Result<Vec<DeviceImage>, SceneError>, imgs: Seq<ImageData>) -> bool {
    match r {
        Ok(ds) => {
            &&& images_error(imgs) is None
            &&& ds@.len() == imgs.len()
            &&& forall|k: int| 0 <= k < imgs.len() ==> device_image_models(
                #[trigger] ds@[k],
                imgs[k],
            )
        },
        Err(e) => images_error(imgs) == Some(e),
    }
}

/// Converts every document image into the fixed device layout, in
/// document order; the result is index-aligned with the document's image
/// list. The whole conversion fails on the first malformed image.
pub fn create_device_images(images: &Vec<ImageData>) -> (r: Result<Vec<DeviceImage>, SceneError>)
    ensures
        images_outcome(r, images@),
{
    let mut out: Vec<DeviceImage> = Vec::new();
    let mut k: usize = 0;
    while k < images.len()
        invariant
            k <= images@.len(),
            out@.len() == k,
            forall|j: int| 0 <= j < k ==> image_error(#[trigger] images@[j]) is None,
            forall|j: int| 0 <= j < k ==> device_image_models(#[trigger] out@[j], images@[j]),
        decreases images@.len() - k,
    {
        let img = &images[k];
        match convert_image_to_bgra8(img) {
            Ok(data) => {
                out.push(DeviceImage { width: img.width, height: img.height, data });
            },
            Err(e) => {
                proof {
                    lemma_images_error_at(images@, k as int);
                }
                return Err(e);
            },
        }
        k = k + 1;
    }
    proof {
        lemma_images_error_none(images@);
    }
    Ok(out)
}

} // verus!
