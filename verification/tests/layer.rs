use std::cell::RefCell;

use aetherment::factor::Factor;
use aetherment::layer::{adjust, composite, resolve_layer, Image, Layer, Pixel, ResolveError};
use aetherment::setting::ConfSetting;

fn factor(value: f32) -> Factor {
    Factor { bits: value.to_bits() }
}

fn pixel(r: u8, g: u8, b: u8, a: u8) -> Pixel {
    Pixel { r, g, b, a }
}

fn image(width: u32, height: u32, pixels: Vec<Pixel>) -> Image {
    Image { width, height, pixels }
}

/// Two bytes of dimensions, then four bytes per pixel.
fn bytes_of(image: &Image) -> Vec<u8> {
    let mut bytes = vec![image.width as u8, image.height as u8];
    for p in &image.pixels {
        bytes.extend([p.r, p.g, p.b, p.a]);
    }
    bytes
}

fn decode(bytes: Vec<u8>) -> Image {
    Image {
        width: bytes[0] as u32,
        height: bytes[1] as u32,
        pixels: bytes[2..].chunks(4).map(|c| pixel(c[0], c[1], c[2], c[3])).collect(),
    }
}

fn layer(value: Option<ConfSetting>, files: &[&str]) -> Layer {
    Layer { value, files: files.iter().map(|f| f.to_string()).collect() }
}

fn resolve(layer: &Layer, sources: &[(&str, &Image)]) -> Result<Image, ResolveError> {
    resolve_layer(
        layer,
        |path: &str| sources.iter().find(|(name, _)| *name == path).map(|(_, i)| bytes_of(i)),
        decode,
    )
}

#[test]
fn a_layer_without_value_is_its_image() {
    let source = image(2, 1, vec![pixel(1, 2, 3, 4), pixel(250, 251, 252, 253)]);
    let out = resolve(&layer(None, &["a.tex"]), &[("a.tex", &source)]).unwrap();
    assert_eq!((out.width, out.height), (2, 1));
    assert_eq!(out.pixels, source.pixels);
}

#[test]
fn opacity_scales_alpha_alone() {
    let source = image(1, 1, vec![pixel(255, 255, 255, 200)]);
    let value = Some(ConfSetting::Opacity(factor(0.5)));
    let out = resolve(&layer(value, &["a.tex"]), &[("a.tex", &source)]).unwrap();
    assert_eq!(out.pixels, vec![pixel(255, 255, 255, 100)]);
    assert_eq!((out.width, out.height), (1, 1));
}

#[test]
fn rgb_scales_each_colour_by_its_own_multiplier() {
    let source = image(1, 2, vec![pixel(10, 20, 200, 77), pixel(255, 255, 255, 0)]);
    let value = Some(ConfSetting::Rgb([factor(1.0), factor(0.5), factor(0.503)]));
    let out = resolve(&layer(value, &["a.tex"]), &[("a.tex", &source)]).unwrap();
    assert_eq!(out.pixels, vec![pixel(10, 10, 100, 77), pixel(255, 127, 128, 0)]);
}

#[test]
fn rgb_cuts_the_blue_product() {
    let value = Some(ConfSetting::Rgb([factor(1.0), factor(1.0), factor(0.503)]));
    assert_eq!(adjust(&value, pixel(0, 0, 200, 9)).b, 100);
}

#[test]
fn rgba_takes_alpha_from_the_scaled_red() {
    let value = Some(ConfSetting::Rgba([factor(0.5), factor(1.0), factor(1.0), factor(0.5)]));
    // red 200 becomes 100, and alpha is half of that, not half of 77
    assert_eq!(adjust(&value, pixel(200, 10, 20, 77)), pixel(100, 10, 20, 50));
    let opaque = Some(ConfSetting::Rgba([factor(1.0), factor(1.0), factor(1.0), factor(1.0)]));
    assert_eq!(adjust(&opaque, pixel(30, 10, 20, 255)), pixel(30, 10, 20, 30));
}

#[test]
fn grayscale_scales_the_three_colours_alike() {
    let value = Some(ConfSetting::Grayscale(factor(0.25)));
    assert_eq!(adjust(&value, pixel(200, 100, 7, 99)), pixel(50, 25, 1, 99));
}

#[test]
fn a_mask_value_leaves_a_single_pixel_alone() {
    let value = Some(ConfSetting::Mask(factor(0.5)));
    assert_eq!(adjust(&value, pixel(1, 2, 3, 4)), pixel(1, 2, 3, 4));
    assert_eq!(adjust(&None, pixel(1, 2, 3, 4)), pixel(1, 2, 3, 4));
}

#[test]
fn a_mask_keeps_alpha_up_to_the_threshold_and_clears_it_above() {
    let primary = image(4, 1, vec![pixel(1, 2, 3, 9); 4]);
    let mask = image(
        4,
        1,
        vec![pixel(100, 0, 0, 0), pixel(200, 0, 0, 0), pixel(127, 255, 255, 255), pixel(128, 0, 0, 0)],
    );
    let value = Some(ConfSetting::Mask(factor(0.5)));
    let out = resolve(&layer(value, &["a.tex", "m.tex"]), &[("a.tex", &primary), ("m.tex", &mask)])
        .unwrap();
    assert_eq!(
        out.pixels,
        vec![pixel(1, 2, 3, 9), pixel(1, 2, 3, 0), pixel(1, 2, 3, 9), pixel(1, 2, 3, 0)]
    );
    assert_eq!((out.width, out.height), (4, 1));
}

#[test]
fn a_mask_of_other_dimensions_is_refused() {
    let primary = image(2, 1, vec![pixel(1, 2, 3, 9); 2]);
    let value = Some(ConfSetting::Mask(factor(0.5)));
    let l = layer(value, &["a.tex", "m.tex"]);
    let longer = image(3, 1, vec![pixel(0, 0, 0, 0); 3]);
    assert_eq!(
        resolve(&l, &[("a.tex", &primary), ("m.tex", &longer)]).unwrap_err(),
        ResolveError::DimensionMismatch
    );
    let turned = image(1, 2, vec![pixel(0, 0, 0, 0); 2]);
    assert_eq!(
        resolve(&l, &[("a.tex", &primary), ("m.tex", &turned)]).unwrap_err(),
        ResolveError::DimensionMismatch
    );
    let short = image(2, 1, vec![pixel(0, 0, 0, 0); 1]);
    assert_eq!(
        composite(&value, image(2, 1, vec![pixel(1, 2, 3, 9); 2]), Some(short)).unwrap_err(),
        ResolveError::DimensionMismatch
    );
}

#[test]
fn a_missing_source_is_an_error() {
    let source = image(1, 1, vec![pixel(1, 2, 3, 4)]);
    let plain = layer(Some(ConfSetting::Opacity(factor(0.5))), &["a.tex"]);
    assert_eq!(resolve(&plain, &[]).unwrap_err(), ResolveError::SourceUnavailable);
    assert_eq!(resolve(&layer(None, &["a.tex"]), &[]).unwrap_err(), ResolveError::SourceUnavailable);
    let masked = layer(Some(ConfSetting::Mask(factor(0.5))), &["a.tex", "m.tex"]);
    assert_eq!(
        resolve(&masked, &[("a.tex", &source)]).unwrap_err(),
        ResolveError::SourceUnavailable
    );
    assert_eq!(
        resolve(&masked, &[("m.tex", &source)]).unwrap_err(),
        ResolveError::SourceUnavailable
    );
    assert_eq!(
        composite(&masked.value, image(1, 1, vec![pixel(1, 2, 3, 4)]), None).unwrap_err(),
        ResolveError::SourceUnavailable
    );
}

#[test]
fn sources_are_asked_for_in_order_and_only_as_far_as_needed() {
    let source = image(1, 1, vec![pixel(1, 2, 3, 4)]);
    let asked = RefCell::new(Vec::new());
    let load = |path: &str| {
        asked.borrow_mut().push(path.to_string());
        if path == "gone.tex" { None } else { Some(bytes_of(&source)) }
    };
    let masked = layer(Some(ConfSetting::Mask(factor(1.0))), &["a.tex", "m.tex", "unused.tex"]);
    resolve_layer(&masked, &load, decode).unwrap();
    assert_eq!(*asked.borrow(), vec!["a.tex", "m.tex"]);

    asked.borrow_mut().clear();
    let plain = layer(Some(ConfSetting::Grayscale(factor(1.0))), &["a.tex", "m.tex"]);
    resolve_layer(&plain, &load, decode).unwrap();
    assert_eq!(*asked.borrow(), vec!["a.tex"]);

    asked.borrow_mut().clear();
    let broken = layer(Some(ConfSetting::Mask(factor(1.0))), &["gone.tex", "m.tex"]);
    assert!(resolve_layer(&broken, &load, decode).is_err());
    assert_eq!(*asked.borrow(), vec!["gone.tex"]);
}

#[test]
fn the_second_image_is_ignored_without_a_mask_value() {
    let other = image(7, 7, vec![]);
    let value = Some(ConfSetting::Opacity(factor(0.5)));
    let out = composite(&value, image(1, 1, vec![pixel(1, 2, 3, 200)]), Some(other)).unwrap();
    assert_eq!(out.pixels, vec![pixel(1, 2, 3, 100)]);
}

#[test]
fn an_image_without_pixels_stays_empty() {
    for value in [
        None,
        Some(ConfSetting::Rgb([factor(0.5); 3])),
        Some(ConfSetting::Rgba([factor(0.5); 4])),
        Some(ConfSetting::Grayscale(factor(0.5))),
        Some(ConfSetting::Opacity(factor(0.5))),
    ] {
        let out = composite(&value, image(0, 0, vec![]), None).unwrap();
        assert!(out.pixels.is_empty());
    }
    let mask = Some(ConfSetting::Mask(factor(0.5)));
    let out = composite(&mask, image(0, 0, vec![]), Some(image(0, 0, vec![]))).unwrap();
    assert!(out.pixels.is_empty());
}

#[test]
fn a_mask_reads_two_sources_and_every_other_value_one() {
    let files = ["a.tex", "m.tex", "more.tex"];
    assert_eq!(layer(Some(ConfSetting::Mask(factor(0.5))), &files).needed_sources(), 2);
    assert_eq!(layer(Some(ConfSetting::Rgb([factor(0.5); 3])), &files).needed_sources(), 1);
    assert_eq!(layer(Some(ConfSetting::Rgba([factor(0.5); 4])), &files).needed_sources(), 1);
    assert_eq!(layer(Some(ConfSetting::Grayscale(factor(0.5))), &files).needed_sources(), 1);
    assert_eq!(layer(Some(ConfSetting::Opacity(factor(0.5))), &files).needed_sources(), 1);
    assert_eq!(layer(None, &files).needed_sources(), 1);
    assert_eq!(layer(None, &[]).needed_sources(), 1);
}
