//! The layer compositor: one source image, transformed pixel by pixel under the
//! selected value of an option.

use vstd::prelude::*;
use crate::factor::{scale, scaled, Factor};
use crate::setting::ConfSetting;

verus! {

/// One RGBA8 pixel.
#[derive(Clone, Copy, Debug, PartialEq, Eq, Structural)]
pub struct Pixel {
    pub r: u8,
    pub g: u8,
    pub b: u8,
    pub a: u8,
}

/// A decoded image: its dimensions and its pixels, row by row.
#[derive(Clone, Debug)]
pub struct Image {
    pub width: u32,
    pub height: u32,
    pub pixels: Vec<Pixel>,
}

/// An image as a value: the dimensions and the sequence of pixels.
pub ghost struct ImageView {
    pub width: u32,
    pub height: u32,
    pub pixels: Seq<Pixel>,
}

impl View for Image {
    type V = ImageView;

    open spec fn view(&self) -> ImageView {
        ImageView { width: self.width, height: self.height, pixels: self.pixels@ }
    }
}

/// What the compositor is asked to resolve: the selected value, if the layer has
/// one, and the paths of its source images in the order in which they are read.
#[derive(Clone, Debug)]
pub struct Layer {
    pub value: Option<ConfSetting>,
    pub files: Vec<String>,
}

impl Layer {
    /// How many of `files` the compositor reads.
    pub open spec fn sources(self) -> nat {
        match self.value {
            Some(v) => v.sources(),
            None => 1,
        }
    }

    /// How many of `files` the compositor reads: as many as `resolve_layer` asks
    /// the layer to have.
    pub fn needed_sources(&self) -> (n: usize)
        ensures
            n == self.sources(),
    {
        match self.value {
            Some(ConfSetting::Mask(_)) => 2,
            _ => 1,
        }
    }
}

/// Why a layer could not be composited.
#[derive(Clone, Copy, Debug, PartialEq, Eq, Structural)]
pub enum ResolveError {
    /// The loader had nothing for a path that the layer needs.
    SourceUnavailable,
    /// The mask does not have the dimensions of the image that it masks.
    DimensionMismatch,
}

/// The three colour channels scaled, red by `r`, green by `g`, blue by `b`; alpha
/// kept.
pub open spec fn tinted(p: Pixel, r: Factor, g: Factor, b: Factor) -> Pixel {
    Pixel { r: scaled(p.r, r), g: scaled(p.g, g), b: scaled(p.b, b), a: p.a }
}

/// As `tinted`, and alpha replaced by the red channel after its scaling, scaled
/// once more by `a`. The alpha that the pixel had plays no part.
pub open spec fn tinted_with_alpha(p: Pixel, r: Factor, g: Factor, b: Factor, a: Factor) -> Pixel {
    Pixel { a: scaled(scaled(p.r, r), a), ..tinted(p, r, g, b) }
}

/// Alpha scaled by `v`; the colour kept.
pub open spec fn faded(p: Pixel, v: Factor) -> Pixel {
    Pixel { a: scaled(p.a, v), ..p }
}

/// The byte against which a mask's red channel is held: 255 scaled by `v`.
pub open spec fn mask_threshold(v: Factor) -> u8 {
    scaled(255, v)
}

/// The pixel kept as it is where the mask's red channel is at most the threshold,
/// and made fully transparent where it is above.
pub open spec fn masked(p: Pixel, mask: Pixel, threshold: u8) -> Pixel {
    if threshold >= mask.r {
        p
    } else {
        Pixel { a: 0, ..p }
    }
}

/// What one pixel becomes under a value that needs no second image. A mask value
/// leaves it alone here: it is applied with `masked`.
pub open spec fn adjusted(value: Option<ConfSetting>, p: Pixel) -> Pixel {
    match value {
        Some(ConfSetting::Rgb(f)) => tinted(p, f[0], f[1], f[2]),
        Some(ConfSetting::Rgba(f)) => tinted_with_alpha(p, f[0], f[1], f[2], f[3]),
        Some(ConfSetting::Grayscale(v)) => tinted(p, v, v, v),
        Some(ConfSetting::Opacity(v)) => faded(p, v),
        Some(ConfSetting::Mask(_)) => p,
        None => p,
    }
}

/// Two images have the same dimensions and the same number of pixels.
pub open spec fn same_dimensions(a: ImageView, b: ImageView) -> bool {
    a.width == b.width && a.height == b.height && a.pixels.len() == b.pixels.len()
}

/// The result of compositing `primary` under `value`, with `mask` the second
/// image where one was loaded.
pub open spec fn composited(value: Option<ConfSetting>, primary: ImageView, mask: Option<
    ImageView,
>) -> Result<ImageView, ResolveError> {
    match value {
        Some(ConfSetting::Mask(v)) => match mask {
            None => Err(ResolveError::SourceUnavailable),
            Some(m) => if same_dimensions(primary, m) {
                Ok(
                    ImageView {
                        pixels: Seq::new(
                            primary.pixels.len(),
                            |i: int| masked(primary.pixels[i], m.pixels[i], mask_threshold(v)),
                        ),
                        ..primary
                    },
                )
            } else {
                Err(ResolveError::DimensionMismatch)
            },
        },
        _ => Ok(
            ImageView {
                pixels: Seq::new(primary.pixels.len(), |i: int| adjusted(value, primary.pixels[i])),
                ..primary
            },
        ),
    }
}

/// The view of an image that may be absent.
pub open spec fn view_of(image: Option<Image>) -> Option<ImageView> {
    match image {
        Some(i) => Some(i@),
        None => None,
    }
}

/// The view of an outcome of compositing.
pub open spec fn outcome_view(r: Result<Image, ResolveError>) -> Result<ImageView, ResolveError> {
    match r {
        Ok(image) => Ok(image@),
        Err(e) => Err(e),
    }
}

/// Applies a value that needs no second image to one pixel. Blue and green are
/// scaled before red, and the alpha of an `Rgba` value is taken from the red
/// channel as it stands after that.
pub fn adjust(value: &Option<ConfSetting>, p: Pixel) -> (q: Pixel)
    ensures
        q == adjusted(*value, p),
{
    let mut q = p;
    match value {
        Some(ConfSetting::Rgb(f)) => {
            q.b = scale(q.b, f[2]);
            q.g = scale(q.g, f[1]);
            q.r = scale(q.r, f[0]);
        },
        Some(ConfSetting::Rgba(f)) => {
            q.b = scale(q.b, f[2]);
            q.g = scale(q.g, f[1]);
            q.r = scale(q.r, f[0]);
            q.a = scale(q.r, f[3]);
        },
        Some(ConfSetting::Grayscale(v)) => {
            q.b = scale(q.b, *v);
            q.g = scale(q.g, *v);
            q.r = scale(q.r, *v);
        },
        Some(ConfSetting::Opacity(v)) => {
            q.a = scale(q.a, *v);
        },
        Some(ConfSetting::Mask(_)) => {},
        None => {},
    }
    q
}

/// Composites a decoded image under a value. A mask value needs the second image,
/// of the same dimensions; every other value ignores it.
pub fn composite(value: &Option<ConfSetting>, primary: Image, mask: Option<Image>) -> (r: Result<
    Image,
    ResolveError,
>)
    ensures
        outcome_view(r) == composited(*value, primary@, view_of(mask)),
{
    let ghost before = primary@;
    let mut image = primary;
    match value {
        Some(ConfSetting::Mask(v)) => {
            let m = match mask {
                Some(m) => m,
                None => { return Err(ResolveError::SourceUnavailable); },
            };
            if image.width != m.width || image.height != m.height || image.pixels.len()
                != m.pixels.len() {
                return Err(ResolveError::DimensionMismatch);
            }
            let threshold = scale(255, *v);
            let n = image.pixels.len();
            let mut i: usize = 0;
            while i < n
                invariant
                    i <= n,
                    n == before.pixels.len(),
                    n == m.pixels@.len(),
                    image.pixels@.len() == n,
                    image.width == before.width,
                    image.height == before.height,
                    threshold == mask_threshold(*v),
                    forall|j: int|
                        0 <= j < i ==> image.pixels@[j] == masked(
                            before.pixels[j],
                            m.pixels@[j],
                            threshold,
                        ),
                    forall|j: int| i <= j < n ==> image.pixels@[j] == before.pixels[j],
                decreases n - i,
            {
                if threshold < m.pixels[i].r {
                    let mut p = image.pixels[i];
                    p.a = 0;
                    image.pixels.set(i, p);
                }
                i += 1;
            }
            assert(image@.pixels =~= composited(*value, before, view_of(mask))->Ok_0.pixels);
            Ok(image)
        },
        _ => {
            let n = image.pixels.len();
            let mut i: usize = 0;
            while i < n
                invariant
                    i <= n,
                    n == before.pixels.len(),
                    image.pixels@.len() == n,
                    image.width == before.width,
                    image.height == before.height,
                    !(*value matches Some(ConfSetting::Mask(_))),
                    forall|j: int|
                        0 <= j < i ==> image.pixels@[j] == adjusted(*value, before.pixels[j]),
                    forall|j: int| i <= j < n ==> image.pixels@[j] == before.pixels[j],
                decreases n - i,
            {
                let p = adjust(value, image.pixels[i]);
                image.pixels.set(i, p);
                i += 1;
            }
            assert(image@.pixels =~= composited(*value, before, view_of(mask))->Ok_0.pixels);
            Ok(image)
        },
    }
}

/// What asking for one source can give: nothing where the loader has nothing for
/// `path`, and else an image that the decoder makes of the loader's bytes.
pub open spec fn fetched<L, D>(load_file: L, decode: D, path: Seq<char>, out: Option<Image>) -> bool
    where L: Fn(&str) -> Option<Vec<u8>>, D: Fn(Vec<u8>) -> Image
{
    exists|p: &str, bytes: Option<Vec<u8>>|
        p@ == path && #[trigger] call_ensures(load_file, (p,), bytes) && match bytes {
            None => out is None,
            Some(b) => out is Some && call_ensures(decode, (b,), out->Some_0),
        }
}

/// Asks the loader for one path and decodes what it hands back.
fn fetch<L, D>(load_file: &L, decode: &D, path: &str) -> (out: Option<Image>)
    where L: Fn(&str) -> Option<Vec<u8>>, D: Fn(Vec<u8>) -> Image
    requires
        forall|p: &str| call_requires(*load_file, (p,)),
        forall|b: Vec<u8>| call_requires(*decode, (b,)),
    ensures
        fetched(*load_file, *decode, path@, out),
{
    match load_file(path) {
        None => None,
        Some(bytes) => Some(decode(bytes)),
    }
}

/// Resolves a layer: loads and decodes its first source, for a mask value the
/// second one too, and composites. The loader is asked for the first path before
/// the second, and for the second only once the first is there.
pub fn resolve_layer<L, D>(layer: &Layer, load_file: L, decode: D) -> (r: Result<Image, ResolveError>)
    where L: Fn(&str) -> Option<Vec<u8>>, D: Fn(Vec<u8>) -> Image
    requires
        layer.files@.len() >= layer.sources(),
        forall|p: &str| call_requires(load_file, (p,)),
        forall|b: Vec<u8>| call_requires(decode, (b,)),
    ensures
        exists|primary: Option<Image>| #[trigger]
            fetched(load_file, decode, layer.files@[0]@, primary) && match primary {
                None => r == Err::<Image, ResolveError>(ResolveError::SourceUnavailable),
                Some(p) => if layer.sources() == 2 {
                    exists|mask: Option<Image>| #[trigger]
                        fetched(load_file, decode, layer.files@[1]@, mask) && outcome_view(r)
                            == composited(layer.value, p@, view_of(mask))
                } else {
                    outcome_view(r) == composited(layer.value, p@, None)
                },
            },
{
    let primary = match fetch(&load_file, &decode, layer.files[0].as_str()) {
        Some(p) => p,
        None => { return Err(ResolveError::SourceUnavailable); },
    };
    let mask = match layer.value {
        Some(ConfSetting::Mask(_)) => fetch(&load_file, &decode, layer.files[1].as_str()),
        _ => None,
    };
    composite(&layer.value, primary, mask)
}

/// A layer without a value is its image, unchanged.
pub proof fn without_value_the_image_is_kept(primary: ImageView, mask: Option<ImageView>)
    ensures
        composited(None, primary, mask) == Ok::<ImageView, ResolveError>(primary),
{
    assert(composited(None, primary, mask)->Ok_0.pixels =~= primary.pixels);
}

/// Compositing changes neither the dimensions of the image nor the number of its
/// pixels.
pub proof fn compositing_keeps_the_dimensions(
    value: Option<ConfSetting>,
    primary: ImageView,
    mask: Option<ImageView>,
)
    requires
        composited(value, primary, mask) is Ok,
    ensures
        same_dimensions(composited(value, primary, mask)->Ok_0, primary),
{
}

} // verus!
