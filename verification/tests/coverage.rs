use photo_engine::coverage::{combined_mask_coverage, mask_coverage, multiply_coverage, Coverage};
use photo_engine::model::LayerMask;
use photo_engine::raster::Raster;

fn red_mask(reds: &[u8], inverted: bool) -> LayerMask {
    let mut samples = Vec::new();
    for r in reds {
        samples.extend_from_slice(&[*r, 0, 0, 255]);
    }
    let buffer = image::RgbaImage::from_raw(reds.len() as u32, 1, samples).expect("tampon");
    let mut mask = LayerMask::full(1, 1, 1);
    mask.image = Raster::from_image(image::DynamicImage::ImageRgba8(buffer));
    mask.inverted = inverted;
    mask
}

#[test]
fn a_mask_covers_by_its_red_channel() {
    let mask = red_mask(&[10, 200], false);
    let c = mask_coverage(&mask);
    assert_eq!((c.width, c.height), (2, 1));
    assert_eq!(c.values, vec![10, 200]);
    let inverted = mask_coverage(&red_mask(&[10, 200], true));
    assert_eq!(inverted.values, vec![245, 55]);
}

#[test]
fn coverages_multiply_over_the_larger_size() {
    let a = Coverage { width: 2, height: 2, values: vec![255, 255, 255, 255] };
    let b = Coverage { width: 3, height: 1, values: vec![255, 128, 255] };
    let c = multiply_coverage(&a, &b);
    assert_eq!((c.width, c.height), (3, 2));
    assert_eq!(c.values, vec![255, 128, 0, 0, 0, 0]);
}

#[test]
fn only_active_masks_combine() {
    let off = || {
        let mut m = LayerMask::full(2, 1, 1);
        m.enabled = false;
        m
    };
    assert!(combined_mask_coverage(&[off()]).is_none());
    assert!(combined_mask_coverage(&[]).is_none());
    let combined = combined_mask_coverage(&[red_mask(&[10, 200], true), off(), LayerMask::full(2, 1, 2)])
        .expect("couverture");
    assert_eq!((combined.width, combined.height), (2, 1));
    assert_eq!(combined.values, vec![245, 55]);
    let halved = combined_mask_coverage(&[red_mask(&[128, 255], false), red_mask(&[128, 0], false)])
        .expect("couverture");
    assert_eq!(halved.values, vec![64, 0]);
}
