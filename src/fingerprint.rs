//! Perceptual fingerprints as plain bit vectors, and the Hamming distance
//! between them.
use vstd::prelude::*;

verus! {

/// The perceptual hashing algorithms a fingerprint can be computed with.
#[derive(Clone, Copy, Debug, PartialEq, Eq, Structural)]
pub enum HashAlgorithm {
    /// Each pixel of the scaled-down image against the mean.
    Mean,
    /// Each pixel against its right neighbour.
    Gradient,
    /// Each pixel against the one below it.
    VertGradient,
    /// Both gradients, at half the resolution each.
    DoubleGradient,
    /// The Blockhash.io algorithm.
    Blockhash,
}

/// A fingerprint: the bits of a perceptual hash, packed eight to a byte.
///
/// Two fingerprints are only meaningfully compared when they were produced
/// under the same algorithm and size.
#[derive(Clone, Debug, PartialEq, Eq)]
pub struct Fingerprint {
    pub bytes: Vec<u8>,
}

/// Number of one bits of a natural number.
pub open spec fn bit_count(x: nat) -> nat
    decreases x,
{
    if x == 0 {
        0
    } else {
        x % 2 + bit_count(x / 2)
    }
}

/// Number of one bits of a byte.
pub open spec fn popcount(b: u8) -> nat {
    bit_count(b as nat)
}

/// Bits that differ between the first `n` bytes of `a` and of `b`.
pub open spec fn hamming_prefix(a: Seq<u8>, b: Seq<u8>, n: nat) -> nat
    decreases n,
{
    if n == 0 {
        0
    } else {
        hamming_prefix(a, b, (n - 1) as nat) + popcount(a[n - 1] ^ b[n - 1])
    }
}

/// Length of the common prefix over which two fingerprints are compared.
pub open spec fn common_len(a: Seq<u8>, b: Seq<u8>) -> nat {
    if a.len() <= b.len() {
        a.len()
    } else {
        b.len()
    }
}

/// Hamming distance of two byte strings, compared byte by byte over their
/// common length.
pub open spec fn hamming(a: Seq<u8>, b: Seq<u8>) -> nat {
    hamming_prefix(a, b, common_len(a, b))
}

/// The distance between two fingerprints fits in a `u32`.
pub open spec fn distance_fits(a: Seq<u8>, b: Seq<u8>) -> bool {
    common_len(a, b) * 8 <= u32::MAX
}

spec fn pow2_bound(k: nat) -> nat
    decreases k,
{
    if k == 0 {
        1
    } else {
        2 * pow2_bound((k - 1) as nat)
    }
}

proof fn lemma_bit_count_bound(x: nat, k: nat)
    requires
        x < pow2_bound(k),
    ensures
        bit_count(x) <= k,
    decreases k,
{
    if x != 0 {
        lemma_bit_count_bound(x / 2, (k - 1) as nat);
    }
}

/// A byte has at most eight one bits.
pub proof fn lemma_popcount_le_8(b: u8)
    ensures
        popcount(b) <= 8,
{
    reveal_with_fuel(pow2_bound, 9);
    assert(pow2_bound(8) == 256);
    lemma_bit_count_bound(b as nat, 8);
}

proof fn lemma_hamming_prefix_bound(a: Seq<u8>, b: Seq<u8>, n: nat)
    ensures
        hamming_prefix(a, b, n) <= 8 * n,
    decreases n,
{
    if n > 0 {
        lemma_hamming_prefix_bound(a, b, (n - 1) as nat);
        lemma_popcount_le_8(a[n - 1] ^ b[n - 1]);
    }
}

/// Counts the one bits of a byte.
pub fn byte_popcount(b: u8) -> (r: u32)
    ensures
        r == popcount(b),
{
    let mut x: u8 = b;
    let mut c: u32 = 0;
    proof {
        lemma_popcount_le_8(b);
    }
    while x > 0
        invariant
            c + bit_count(x as nat) == popcount(b),
            popcount(b) <= 8,
        decreases x,
    {
        c = c + (x % 2) as u32;
        x = x / 2;
    }
    c
}

/// Hamming distance between two fingerprints: the number of bits that
/// differ, compared over their common length.
pub fn hamming_distance(a: &Fingerprint, b: &Fingerprint) -> (r: u32)
    requires
        distance_fits(a.bytes@, b.bytes@),
    ensures
        r == hamming(a.bytes@, b.bytes@),
{
    let n: usize = if a.bytes.len() <= b.bytes.len() {
        a.bytes.len()
    } else {
        b.bytes.len()
    };
    let mut acc: u32 = 0;
    let mut i: usize = 0;
    while i < n
        invariant
            n == common_len(a.bytes@, b.bytes@),
            n * 8 <= u32::MAX,
            i <= n,
            acc == hamming_prefix(a.bytes@, b.bytes@, i as nat),
        decreases n - i,
    {
        proof {
            lemma_hamming_prefix_bound(a.bytes@, b.bytes@, (i + 1) as nat);
        }
        let d = byte_popcount(a.bytes[i] ^ b.bytes[i]);
        acc = acc + d;
        i = i + 1;
    }
    acc
}

proof fn lemma_hamming_prefix_symmetric(a: Seq<u8>, b: Seq<u8>, n: nat)
    ensures
        hamming_prefix(a, b, n) == hamming_prefix(b, a, n),
    decreases n,
{
    if n > 0 {
        lemma_hamming_prefix_symmetric(a, b, (n - 1) as nat);
        let x = a[n - 1];
        let y = b[n - 1];
        assert(x ^ y == y ^ x) by (bit_vector);
    }
}

proof fn lemma_hamming_prefix_self(a: Seq<u8>, n: nat)
    ensures
        hamming_prefix(a, a, n) == 0,
    decreases n,
{
    if n > 0 {
        lemma_hamming_prefix_self(a, (n - 1) as nat);
        let x = a[n - 1];
        assert(x ^ x == 0) by (bit_vector);
    }
}

/// Hamming distance is symmetric, and every fingerprint is at distance
/// zero from itself.
pub proof fn lemma_distance_symmetric(a: Fingerprint, b: Fingerprint)
    ensures
        hamming(a.bytes@, b.bytes@) == hamming(b.bytes@, a.bytes@),
        hamming(a.bytes@, a.bytes@) == 0,
{
    lemma_hamming_prefix_symmetric(a.bytes@, b.bytes@, common_len(a.bytes@, b.bytes@));
    lemma_hamming_prefix_self(a.bytes@, a.bytes@.len());
}

/// A width or height as the algorithm rounds it: to a multiple of two for
/// the double gradient, of four for Blockhash.
pub open spec fn rounded_dimension(algorithm: HashAlgorithm, x: u32) -> nat {
    match algorithm {
        HashAlgorithm::DoubleGradient => (x + x % 2) as nat,
        HashAlgorithm::Blockhash => (x + (4 - x % 4) % 4) as nat,
        _ => x as nat,
    }
}

/// A hash size that the hasher accepts without overflow in its `u32`
/// arithmetic: both dimensions positive, the rounded area a `u32`, the sum
/// of the area's 8-bit pixel values a `u32` for the mean, and the one-pixel
/// margin of the gradients a `u32`.
pub open spec fn size_supported(algorithm: HashAlgorithm, width: u32, height: u32) -> bool {
    let rw = rounded_dimension(algorithm, width);
    let rh = rounded_dimension(algorithm, height);
    &&& width >= 1
    &&& height >= 1
    &&& rw * rh <= u32::MAX
    &&& (algorithm is Mean ==> rw * rh * 255 <= u32::MAX)
    &&& (algorithm is Gradient ==> width + 1 <= u32::MAX)
    &&& (algorithm is VertGradient ==> height + 1 <= u32::MAX)
}

/// The widest and tallest image that Blockhash divides into blocks exactly
/// in `f32`.
pub const MAX_BLOCKHASH_SIDE: u32 = 65536;

/// An image that the hasher takes without overflow: not empty; and, for
/// Blockhash, no side over [`MAX_BLOCKHASH_SIDE`] and, where the hash size
/// divides the image evenly, the sum of one block's pixels (up to 765 each)
/// a `u32`.
pub open spec fn image_supported(
    algorithm: HashAlgorithm,
    width: u32,
    height: u32,
    image_width: u32,
    image_height: u32,
) -> bool {
    let rw = rounded_dimension(algorithm, width);
    let rh = rounded_dimension(algorithm, height);
    let iw = image_width as nat;
    let ih = image_height as nat;
    &&& image_width >= 1
    &&& image_height >= 1
    &&& (algorithm is Blockhash ==> {
        &&& image_width <= MAX_BLOCKHASH_SIDE
        &&& image_height <= MAX_BLOCKHASH_SIDE
        &&& (iw % rw == 0 && ih % rh == 0 ==> (iw / rw) * (ih / rh) * 765 <= u32::MAX)
    })
}

/// The number of bits of a hash: the rounded area, except for the double
/// gradient, which compares along the rows and the columns of an image of
/// half the size plus one.
pub open spec fn hash_bits(algorithm: HashAlgorithm, width: u32, height: u32) -> nat {
    let rw = rounded_dimension(algorithm, width);
    let rh = rounded_dimension(algorithm, height);
    match algorithm {
        HashAlgorithm::DoubleGradient => (rw / 2) * (rh / 2 + 1) + (rw / 2 + 1) * (rh / 2),
        _ => rw * rh,
    }
}

/// The number of bytes of a fingerprint: its bits, eight to a byte.
pub open spec fn fingerprint_len(algorithm: HashAlgorithm, width: u32, height: u32) -> nat {
    (hash_bits(algorithm, width, height) + 7) / 8
}

#[verifier::external_type_specification]
#[verifier::external_body]
#[verifier::reject_recursive_types(B)]
pub struct ExHasher<B>(img_hash::Hasher<B>);

#[verifier::external_type_specification]
#[verifier::external_body]
pub struct ExDynamicImage(image::DynamicImage);

/// A decoded image, kept with its width and height in pixels.
pub struct DecodedImage {
    image: image::DynamicImage,
    width: u32,
    height: u32,
}

/// Relies on image's `GenericImageView::dimensions`: the width and height
/// of the image, in pixels.
#[verifier::external_body]
fn measure_image(image: image::DynamicImage) -> (r: DecodedImage) {
    let (width, height) = image::GenericImageView::dimensions(&image);
    DecodedImage { image, width, height }
}

impl DecodedImage {
    /// The width of the image, in pixels.
    pub closed spec fn spec_width(&self) -> u32 {
        self.width
    }

    /// The height of the image, in pixels.
    pub closed spec fn spec_height(&self) -> u32 {
        self.height
    }

    /// Measures a decoded image.
    pub fn new(image: image::DynamicImage) -> DecodedImage {
        measure_image(image)
    }

    /// The width of the image, in pixels.
    pub fn width(&self) -> (r: u32)
        ensures
            r == self.spec_width(),
    {
        self.width
    }

    /// The height of the image, in pixels.
    pub fn height(&self) -> (r: u32)
        ensures
            r == self.spec_height(),
    {
        self.height
    }
}

/// Relies on img_hash's `HasherConfig` (`new`, `hash_alg`, `hash_size`,
/// `to_hasher`), which panics only when rounding the size or multiplying
/// it out overflows, excluded here.
#[verifier::external_body]
fn build_hasher(algorithm: HashAlgorithm, width: u32, height: u32) -> (r: img_hash::Hasher)
    requires
        size_supported(algorithm, width, height),
{
    let alg = match algorithm {
        HashAlgorithm::Mean => img_hash::HashAlg::Mean,
        HashAlgorithm::Gradient => img_hash::HashAlg::Gradient,
        HashAlgorithm::VertGradient => img_hash::HashAlg::VertGradient,
        HashAlgorithm::DoubleGradient => img_hash::HashAlg::DoubleGradient,
        HashAlgorithm::Blockhash => img_hash::HashAlg::Blockhash,
    };
    img_hash::HasherConfig::new().hash_alg(alg).hash_size(width, height).to_hasher()
}

/// Relies on img_hash's `Hasher::hash_image` and `ImageHash::as_bytes`, for
/// the hasher that `build_hasher` made of the fingerprinter's algorithm and
/// size: the hash has `hash_bits` bits, packed eight to a byte with the last
/// byte padded. Its integer overflows (the mean's pixel sum, the gradients'
/// margin, Blockhash's block sums and index arithmetic) are excluded by
/// `size_supported` and `image_supported`.
#[verifier::external_body]
fn hash_image_bytes(fingerprinter: &Fingerprinter, image: &DecodedImage) -> (r: Vec<u8>)
    requires
        size_supported(fingerprinter.algorithm, fingerprinter.width, fingerprinter.height),
        image_supported(
            fingerprinter.algorithm,
            fingerprinter.width,
            fingerprinter.height,
            image.width,
            image.height,
        ),
    ensures
        r@.len() == fingerprint_len(fingerprinter.algorithm, fingerprinter.width, fingerprinter.height),
{
    fingerprinter.hasher.hash_image(&image.image).as_bytes().to_vec()
}

/// The size `x` as the algorithm rounds it.
fn round_dimension(algorithm: HashAlgorithm, x: u32) -> (r: u64)
    ensures
        r == rounded_dimension(algorithm, x),
        x <= r <= x + 3,
{
    match algorithm {
        HashAlgorithm::DoubleGradient => x as u64 + (x % 2) as u64,
        HashAlgorithm::Blockhash => x as u64 + ((4 - x % 4) % 4) as u64,
        _ => x as u64,
    }
}

/// Computes fingerprints under one algorithm and size.
pub struct Fingerprinter {
    hasher: img_hash::Hasher,
    algorithm: HashAlgorithm,
    width: u32,
    height: u32,
}

impl Fingerprinter {
    #[verifier::type_invariant]
    spec fn supported(&self) -> bool {
        size_supported(self.algorithm, self.width, self.height)
    }

    /// The algorithm fingerprints are computed with.
    pub closed spec fn spec_algorithm(&self) -> HashAlgorithm {
        self.algorithm
    }

    /// The hash size, as width and height.
    pub closed spec fn spec_size(&self) -> (u32, u32) {
        (self.width, self.height)
    }

    /// A fingerprinter for `algorithm` at `width` by `height` bits, or
    /// `None` where the hasher does not support that size.
    pub fn new(algorithm: HashAlgorithm, width: u32, height: u32) -> (r: Option<Fingerprinter>)
        ensures
            r is Some <==> size_supported(algorithm, width, height),
            r matches Some(f) ==> f.spec_algorithm() == algorithm && f.spec_size() == (width, height),
    {
        if width == 0 || height == 0 {
            return None;
        }
        let rw = round_dimension(algorithm, width);
        let rh = round_dimension(algorithm, height);
        assert(rw * rh <= 0x1_0000_0003 * 0x1_0000_0003) by (nonlinear_arith)
            requires
                rw <= 0x1_0000_0003,
                rh <= 0x1_0000_0003,
        ;
        let area: u128 = rw as u128 * rh as u128;
        if area > u32::MAX as u128 {
            return None;
        }
        let supported = match algorithm {
            HashAlgorithm::Mean => area * 255 <= u32::MAX as u128,
            HashAlgorithm::Gradient => width < u32::MAX,
            HashAlgorithm::VertGradient => height < u32::MAX,
            _ => true,
        };
        if !supported {
            return None;
        }
        Some(Fingerprinter { hasher: build_hasher(algorithm, width, height), algorithm, width, height })
    }

    /// The algorithm fingerprints are computed with.
    pub fn algorithm(&self) -> (r: HashAlgorithm)
        ensures
            r == self.spec_algorithm(),
    {
        self.algorithm
    }

    /// The hash size, as width and height.
    pub fn size(&self) -> (r: (u32, u32))
        ensures
            r == self.spec_size(),
    {
        (self.width, self.height)
    }

    /// Whether the hasher takes `image`.
    pub fn accepts(&self, image: &DecodedImage) -> (r: bool)
        ensures
            r == image_supported(
                self.spec_algorithm(),
                self.spec_size().0,
                self.spec_size().1,
                image.spec_width(),
                image.spec_height(),
            ),
    {
        proof {
            use_type_invariant(self);
        }
        if image.width == 0 || image.height == 0 {
            return false;
        }
        match self.algorithm {
            HashAlgorithm::Blockhash => {
                if image.width > MAX_BLOCKHASH_SIDE || image.height > MAX_BLOCKHASH_SIDE {
                    return false;
                }
                let rw = round_dimension(self.algorithm, self.width);
                let rh = round_dimension(self.algorithm, self.height);
                let iw = image.width as u64;
                let ih = image.height as u64;
                if iw % rw == 0 && ih % rh == 0 {
                    let bw = iw / rw;
                    let bh = ih / rh;
                    assert(bw <= 65536 && bh <= 65536) by (nonlinear_arith)
                        requires
                            bw == iw / rw,
                            bh == ih / rh,
                            rw >= 1,
                            rh >= 1,
                            iw <= 65536,
                            ih <= 65536,
                    ;
                    assert(bw * bh <= 65536 * 65536) by (nonlinear_arith)
                        requires
                            bw <= 65536,
                            bh <= 65536,
                    ;
                    bw * bh * 765 <= u32::MAX as u64
                } else {
                    true
                }
            },
            _ => true,
        }
    }

    /// The fingerprint of a decoded image, or `None` where the hasher does
    /// not take the image. It has as many bytes as the algorithm and size
    /// give bits, eight to a byte.
    pub fn fingerprint(&self, image: &DecodedImage) -> (r: Option<Fingerprint>)
        ensures
            r is Some <==> image_supported(
                self.spec_algorithm(),
                self.spec_size().0,
                self.spec_size().1,
                image.spec_width(),
                image.spec_height(),
            ),
            r matches Some(f) ==> f.bytes@.len() == fingerprint_len(
                self.spec_algorithm(),
                self.spec_size().0,
                self.spec_size().1,
            ),
    {
        proof {
            use_type_invariant(self);
        }
        if self.accepts(image) {
            Some(Fingerprint { bytes: hash_image_bytes(self, image) })
        } else {
            None
        }
    }
}

} // verus!
