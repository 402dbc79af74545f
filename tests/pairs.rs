use image::{DynamicImage, ImageBuffer, Rgb};
use img_dedup::{
    all_fingerprints_fit, combinations, duplicate_set, filter_max_dist, pair_distances, score_pair,
    sort_for_report, DecodedImage, Fingerprint, Fingerprinted, Fingerprinter, HashAlgorithm, ScoredPair,
};

fn item(name: &str, bytes: &[u8]) -> Fingerprinted {
    Fingerprinted { path: name.to_string(), fingerprint: Fingerprint { bytes: bytes.to_vec() } }
}

fn sp(first: usize, second: usize, distance: u32) -> ScoredPair {
    ScoredPair { first, second, distance }
}

#[test]
fn combinations_in_lexicographic_order() {
    assert_eq!(combinations(4), vec![(0, 1), (0, 2), (0, 3), (1, 2), (1, 3), (2, 3)]);
    assert_eq!(combinations(2), vec![(0, 1)]);
    assert!(combinations(1).is_empty());
    assert!(combinations(0).is_empty());
}

#[test]
fn combinations_count_and_uniqueness() {
    for n in 0..30usize {
        let c = combinations(n);
        assert_eq!(c.len(), n * n.saturating_sub(1) / 2);
        let mut seen = std::collections::HashSet::new();
        for &(i, j) in &c {
            assert!(i < j && j < n);
            assert!(seen.insert((i, j)));
        }
    }
}

#[test]
fn pair_distances_scores_every_pair() {
    let items = vec![item("a", &[0x00]), item("b", &[0x01]), item("c", &[0xFF])];
    assert!(all_fingerprints_fit(&items));
    let pairs = pair_distances(&items);
    assert_eq!(pairs, vec![sp(0, 1, 1), sp(0, 2, 8), sp(1, 2, 7)]);
    assert_eq!(score_pair(&items, 2, 0), sp(2, 0, 8));
}

#[test]
fn pair_distances_of_empty_and_single() {
    assert!(pair_distances(&Vec::new()).is_empty());
    assert!(pair_distances(&vec![item("only", &[1, 2, 3])]).is_empty());
}

#[test]
fn threshold_is_inclusive() {
    let pairs = vec![sp(0, 1, 5), sp(0, 2, 6), sp(1, 2, 4)];
    assert_eq!(filter_max_dist(&pairs, 5), vec![sp(0, 1, 5), sp(1, 2, 4)]);
    assert_eq!(filter_max_dist(&pairs, 3), vec![]);
    assert_eq!(filter_max_dist(&pairs, u32::MAX), pairs);
}

#[test]
fn raising_threshold_keeps_selected_pairs() {
    let pairs = vec![sp(0, 1, 9), sp(0, 2, 2), sp(1, 2, 5), sp(1, 3, 0), sp(2, 3, 7)];
    for low in 0..12u32 {
        for high in low..12u32 {
            let lo = filter_max_dist(&pairs, low);
            let hi = filter_max_dist(&pairs, high);
            for p in &lo {
                assert!(hi.contains(p));
            }
        }
    }
}

#[test]
fn report_order_is_stable_ascending() {
    let pairs = vec![sp(0, 1, 3), sp(0, 2, 1), sp(1, 2, 3), sp(0, 3, 0), sp(2, 3, 1)];
    assert_eq!(
        sort_for_report(pairs),
        vec![sp(0, 3, 0), sp(0, 2, 1), sp(2, 3, 1), sp(0, 1, 3), sp(1, 2, 3)]
    );
}

#[test]
fn duplicate_set_names_each_item_once() {
    let pairs = vec![sp(0, 1, 3), sp(1, 4, 1), sp(0, 4, 2)];
    let mut set = duplicate_set(&pairs);
    set.sort();
    assert_eq!(set, vec![0, 1, 4]);
    assert!(duplicate_set(&vec![]).is_empty());
}

#[test]
fn duplicate_set_is_idempotent() {
    let pairs = vec![sp(2, 3, 0), sp(0, 3, 1)];
    assert_eq!(duplicate_set(&pairs), duplicate_set(&pairs));
}

fn picture(kind: u32) -> DecodedImage {
    let img = ImageBuffer::from_fn(96, 96, |x, y| {
        let v = match kind {
            0 => ((x * 255) / 95) as u8,
            1 => {
                let v = ((x * 255) / 95) as u8;
                if x == 50 && y == 10 { v.saturating_add(4) } else { v }
            }
            _ => 255 - ((x * 255) / 95) as u8,
        };
        Rgb([v, v, v])
    });
    DecodedImage::new(DynamicImage::ImageRgb8(img))
}

#[test]
fn three_images_one_near_duplicate_pair() {
    let f = Fingerprinter::new(HashAlgorithm::DoubleGradient, 12, 12).unwrap();
    let items: Vec<Fingerprinted> = (0..3u32)
        .map(|k| Fingerprinted { path: format!("img{}.png", k), fingerprint: f.fingerprint(&picture(k)).unwrap() })
        .collect();
    let pairs = pair_distances(&items);
    assert_eq!(pairs.len(), 3);
    let similar = filter_max_dist(&pairs, 5);
    assert_eq!(similar.len(), 1);
    assert_eq!((similar[0].first, similar[0].second), (0, 1));
    let set = duplicate_set(&similar);
    assert!(!set.contains(&2));
    assert_eq!(set.len(), 2);
}
