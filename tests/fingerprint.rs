use image::{DynamicImage, ImageBuffer, Rgb};
use img_dedup::{hamming_distance, DecodedImage, Fingerprint, Fingerprinter, HashAlgorithm};

fn fp(bytes: &[u8]) -> Fingerprint {
    Fingerprint { bytes: bytes.to_vec() }
}

fn gradient_image(invert: bool, tweak: bool) -> DecodedImage {
    let img = ImageBuffer::from_fn(96, 96, |x, y| {
        let mut v = ((x * 255) / 95) as u8;
        if invert {
            v = 255 - v;
        }
        if tweak && x == 40 && y == 40 {
            v = v.saturating_add(3);
        }
        Rgb([v, v, v])
    });
    DecodedImage::new(DynamicImage::ImageRgb8(img))
}

#[test]
fn distance_counts_differing_bits() {
    assert_eq!(hamming_distance(&fp(&[0xFF]), &fp(&[0x00])), 8);
    assert_eq!(hamming_distance(&fp(&[0b1010_1010, 0x01]), &fp(&[0b0000_1010, 0x03])), 3);
    assert_eq!(hamming_distance(&fp(&[]), &fp(&[])), 0);
}

#[test]
fn distance_compares_common_length_only() {
    assert_eq!(hamming_distance(&fp(&[0x0F, 0xFF]), &fp(&[0x00])), 4);
}

#[test]
fn distance_is_symmetric_and_zero_on_self() {
    let a = fp(&[0x12, 0x34, 0x56]);
    let b = fp(&[0xAB, 0xCD, 0xEF]);
    assert_eq!(hamming_distance(&a, &b), hamming_distance(&b, &a));
    assert_eq!(hamming_distance(&a, &a), 0);
    assert_eq!(hamming_distance(&b, &b), 0);
}

#[test]
fn fingerprinter_rejects_unsupported_sizes() {
    assert!(Fingerprinter::new(HashAlgorithm::Mean, 0, 8).is_none());
    assert!(Fingerprinter::new(HashAlgorithm::Mean, 8, 0).is_none());
    assert!(Fingerprinter::new(HashAlgorithm::Mean, 100_000, 100_000).is_none());
    assert!(Fingerprinter::new(HashAlgorithm::Mean, 4104, 4104).is_some());
    assert!(Fingerprinter::new(HashAlgorithm::Mean, 4105, 4105).is_none());
    assert!(Fingerprinter::new(HashAlgorithm::Gradient, 5000, 5000).is_some());
    assert!(Fingerprinter::new(HashAlgorithm::Blockhash, 65535, 65535).is_none());
    assert!(Fingerprinter::new(HashAlgorithm::Blockhash, 65532, 65532).is_some());
    assert!(Fingerprinter::new(HashAlgorithm::Gradient, u32::MAX, 1).is_none());
    assert!(Fingerprinter::new(HashAlgorithm::VertGradient, 1, u32::MAX).is_none());
    assert!(Fingerprinter::new(HashAlgorithm::VertGradient, u32::MAX, 1).is_some());
    let f = Fingerprinter::new(HashAlgorithm::DoubleGradient, 12, 12).unwrap();
    assert_eq!(f.algorithm(), HashAlgorithm::DoubleGradient);
    assert_eq!(f.size(), (12, 12));
}

#[test]
fn fingerprinting_is_deterministic() {
    let img = gradient_image(false, false);
    for alg in [
        HashAlgorithm::Mean,
        HashAlgorithm::Gradient,
        HashAlgorithm::VertGradient,
        HashAlgorithm::DoubleGradient,
        HashAlgorithm::Blockhash,
    ] {
        let f = Fingerprinter::new(alg, 12, 12).unwrap();
        let a = f.fingerprint(&img).unwrap();
        let b = f.fingerprint(&img).unwrap();
        assert!(!a.bytes.is_empty());
        assert_eq!(a, b);
        let g = Fingerprinter::new(alg, 12, 12).unwrap();
        assert_eq!(g.fingerprint(&img), Some(a));
    }
}

#[test]
fn fingerprints_separate_different_images() {
    let f = Fingerprinter::new(HashAlgorithm::DoubleGradient, 12, 12).unwrap();
    let a = f.fingerprint(&gradient_image(false, false)).unwrap();
    let b = f.fingerprint(&gradient_image(false, true)).unwrap();
    let c = f.fingerprint(&gradient_image(true, false)).unwrap();
    assert!(hamming_distance(&a, &b) <= 2);
    assert!(hamming_distance(&a, &c) > 5);
}

#[test]
fn fingerprint_length_follows_algorithm_and_size() {
    let img = gradient_image(false, false);
    let len = |alg, w, h| Fingerprinter::new(alg, w, h).unwrap().fingerprint(&img).unwrap().bytes.len();
    assert_eq!(len(HashAlgorithm::Mean, 8, 8), 8);
    assert_eq!(len(HashAlgorithm::Gradient, 8, 8), 8);
    assert_eq!(len(HashAlgorithm::VertGradient, 5, 3), 2);
    // 12 x 12: 6 * 7 + 7 * 6 = 84 bits
    assert_eq!(len(HashAlgorithm::DoubleGradient, 12, 12), 11);
    // 11 rounds to 12: 144 bits
    assert_eq!(len(HashAlgorithm::Blockhash, 11, 12), 18);
}

#[test]
fn empty_and_oversized_images_are_not_hashed() {
    let empty = DecodedImage::new(DynamicImage::new_rgb8(0, 0));
    assert_eq!((empty.width(), empty.height()), (0, 0));
    let mean = Fingerprinter::new(HashAlgorithm::Mean, 8, 8).unwrap();
    assert_eq!(mean.fingerprint(&empty), None);
    // wider than Blockhash divides exactly
    let big = DecodedImage::new(DynamicImage::new_luma8(65540, 4));
    let block = Fingerprinter::new(HashAlgorithm::Blockhash, 4, 4).unwrap();
    assert!(!block.accepts(&big));
    assert_eq!(block.fingerprint(&big), None);
    assert!(mean.fingerprint(&big).is_some());
    let fine = DecodedImage::new(DynamicImage::new_rgb8(64, 64));
    assert!(block.fingerprint(&fine).is_some());
}
