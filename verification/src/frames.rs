//! Pictures as rows of bytes: dropping the alpha channel, and averaging samples.
use vstd::prelude::*;

verus! {

/// The largest number of samples whose channels can be summed.
pub const MAX_SAMPLES: u32 = 16843009;

/// The red, green and blue bytes of an RGBA picture.
pub open spec fn without_alpha(rgba: Seq<u8>) -> Seq<u8> {
    Seq::new((rgba.len() / 4 * 3) as nat, |j: int| rgba[j / 3 * 4 + j % 3])
}

/// The RGBA picture of an RGB one, opaque.
pub open spec fn with_alpha(rgb: Seq<u8>) -> Seq<u8> {
    Seq::new((rgb.len() / 3 * 4) as nat, |j: int| if j % 4 == 3 { 255u8 } else { rgb[j / 4 * 3 + j % 4] })
}

/// Drops the alpha channel. Bytes after the last whole pixel are dropped too.
pub fn rgba_to_rgb(rgba: &[u8]) -> (r: Vec<u8>)
    ensures
        r@ == without_alpha(rgba@),
{
    let mut out: Vec<u8> = Vec::new();
    let pixels: usize = rgba.len() / 4;
    let mut p: usize = 0;
    while p < pixels
        invariant
            p <= pixels,
            pixels == rgba@.len() / 4,
            rgba@.len() <= usize::MAX,
            out@.len() == 3 * p,
            forall|j: int| 0 <= j < 3 * p ==> out@[j] == rgba@[j / 3 * 4 + j % 3],
        decreases pixels - p,
    {
        out.push(rgba[p * 4]);
        out.push(rgba[p * 4 + 1]);
        out.push(rgba[p * 4 + 2]);
        p = p + 1;
    }
    out
}

/// Adds an opaque alpha channel.
pub fn rgb_to_rgba(rgb: &[u8]) -> (r: Vec<u8>)
    ensures
        r@ == with_alpha(rgb@),
{
    let mut out: Vec<u8> = Vec::new();
    let pixels: usize = rgb.len() / 3;
    let mut p: usize = 0;
    assert(pixels * 3 <= rgb@.len());
    while p < pixels
        invariant
            p <= pixels,
            pixels == rgb@.len() / 3,
            rgb@.len() <= usize::MAX,
            out@.len() == 4 * p,
            forall|j: int|
                0 <= j < 4 * p ==> out@[j] == (if j % 4 == 3 { 255u8 } else { rgb@[j / 4 * 3 + j % 4] }),
        decreases pixels - p,
    {
        out.push(rgb[p * 3]);
        out.push(rgb[p * 3 + 1]);
        out.push(rgb[p * 3 + 2]);
        out.push(255);
        p = p + 1;
    }
    out
}

/// Dropping the alpha channel takes back adding it.
pub proof fn law_alpha_round_trip(rgb: Seq<u8>)
    requires
        rgb.len() % 3 == 0,
    ensures
        without_alpha(with_alpha(rgb)) == rgb,
{
    let there = with_alpha(rgb);
    assert(there.len() / 4 * 3 == rgb.len());
    assert forall|j: int| 0 <= j < rgb.len() implies without_alpha(there)[j] == rgb[j] by {
        let k = j / 3 * 4 + j % 3;
        assert(k / 4 == j / 3 && k % 4 == j % 3);
    }
    assert(without_alpha(there) =~= rgb);
}

/// The sum of one byte over some pictures.
pub open spec fn byte_sum(pictures: Seq<Seq<u8>>, j: int) -> int
    decreases pictures.len(),
{
    if pictures.len() == 0 {
        0
    } else {
        byte_sum(pictures.drop_last(), j) + pictures.last()[j]
    }
}

/// The mean of some RGB pictures of `len` bytes, each byte rounded down.
pub open spec fn mean(pictures: Seq<Seq<u8>>, len: nat) -> Seq<u8> {
    Seq::new(len, |j: int| (byte_sum(pictures, j) / pictures.len() as int) as u8)
}

pub proof fn lemma_byte_sum_bounds(pictures: Seq<Seq<u8>>, j: int)
    ensures
        0 <= byte_sum(pictures, j) <= 255 * pictures.len(),
    decreases pictures.len(),
{
    if pictures.len() > 0 {
        lemma_byte_sum_bounds(pictures.drop_last(), j);
    }
}

proof fn lemma_byte_sum_same(pictures: Seq<Seq<u8>>, j: int, v: u8)
    requires
        forall|i: int| 0 <= i < pictures.len() ==> (#[trigger] pictures[i])[j] == v,
    ensures
        byte_sum(pictures, j) == v * pictures.len(),
    decreases pictures.len(),
{
    if pictures.len() > 0 {
        let rest = pictures.drop_last();
        assert forall|i: int| 0 <= i < rest.len() implies (#[trigger] rest[i])[j] == v by {
            assert(rest[i] == pictures[i]);
        }
        lemma_byte_sum_same(rest, j, v);
        assert(pictures.last() == pictures[pictures.len() - 1]);
        assert(v * pictures.len() == v * rest.len() + v) by (nonlinear_arith)
            requires
                pictures.len() == rest.len() + 1,
        ;
    } else {
        assert(v * 0 == 0) by (nonlinear_arith);
    }
}

/// The mean of equal pictures is that picture.
pub proof fn law_mean_of_equal_pictures(pictures: Seq<Seq<u8>>, picture: Seq<u8>)
    requires
        pictures.len() > 0,
        forall|i: int| 0 <= i < pictures.len() ==> #[trigger] pictures[i] == picture,
    ensures
        mean(pictures, picture.len()) == picture,
{
    assert forall|j: int| 0 <= j < picture.len() implies mean(pictures, picture.len())[j] == picture[j] by {
        lemma_byte_sum_same(pictures, j, picture[j]);
        vstd::arithmetic::div_mod::lemma_div_multiples_vanish(picture[j] as int, pictures.len() as int);
        assert(picture[j] * pictures.len() == pictures.len() * picture[j]) by (nonlinear_arith);
    }
    assert(mean(pictures, picture.len()) =~= picture);
}

/// The mean of pictures whose bytes all lie within bounds lies within them.
pub proof fn law_mean_keeps_bounds(pictures: Seq<Seq<u8>>, len: nat, j: int, low: u8, high: u8)
    requires
        pictures.len() > 0,
        0 <= j < len,
        forall|i: int| 0 <= i < pictures.len() ==> low <= (#[trigger] pictures[i])[j] && pictures[i][j] <= high,
    ensures
        low <= mean(pictures, len)[j] <= high,
{
    lemma_byte_sum_within(pictures, j, low, high);
    let n = pictures.len() as int;
    let sum = byte_sum(pictures, j);
    vstd::arithmetic::div_mod::lemma_fundamental_div_mod(sum, n);
    vstd::arithmetic::div_mod::lemma_mod_bound(sum, n);
    assert(low <= sum / n <= high) by (nonlinear_arith)
        requires
            low * n <= sum <= high * n,
            sum == n * (sum / n) + sum % n,
            0 <= sum % n < n,
    ;
}

proof fn lemma_byte_sum_within(pictures: Seq<Seq<u8>>, j: int, low: u8, high: u8)
    requires
        forall|i: int| 0 <= i < pictures.len() ==> low <= (#[trigger] pictures[i])[j] && pictures[i][j] <= high,
    ensures
        low * pictures.len() <= byte_sum(pictures, j) <= high * pictures.len(),
    decreases pictures.len(),
{
    if pictures.len() > 0 {
        let rest = pictures.drop_last();
        assert forall|i: int| 0 <= i < rest.len() implies low <= (#[trigger] rest[i])[j] && rest[i][j] <= high by {
            assert(rest[i] == pictures[i]);
        }
        lemma_byte_sum_within(rest, j, low, high);
        assert(pictures.last() == pictures[pictures.len() - 1]);
        assert(low * pictures.len() == low * rest.len() + low) by (nonlinear_arith)
            requires
                pictures.len() == rest.len() + 1,
        ;
        assert(high * pictures.len() == high * rest.len() + high) by (nonlinear_arith)
            requires
                pictures.len() == rest.len() + 1,
        ;
    } else {
        assert(low * 0 == 0 && high * 0 == 0) by (nonlinear_arith);
    }
}

/// Sums up the samples of one frame.
pub struct FrameMixer {
    sums: Vec<u32>,
    count: u32,
    samples: Ghost<Seq<Seq<u8>>>,
}

impl FrameMixer {
    /// The RGB pictures of the samples so far.
    pub closed spec fn samples(&self) -> Seq<Seq<u8>> {
        self.samples@
    }

    /// The number of bytes of an RGB picture.
    pub closed spec fn len(&self) -> nat {
        self.sums@.len()
    }

    /// The sums are those of the samples.
    pub closed spec fn wf(&self) -> bool {
        &&& self.sums@.len() % 3 == 0
        &&& self.count == self.samples@.len()
        &&& self.count <= MAX_SAMPLES
        &&& forall|i: int| 0 <= i < self.samples@.len() ==> (#[trigger] self.samples@[i]).len() == self.sums@.len()
        &&& forall|j: int| 0 <= j < self.sums@.len() ==> (#[trigger] self.sums@[j]) as int == byte_sum(self.samples@, j)
    }

    /// A mixer for pictures of `pixels` pixels.
    pub fn new(pixels: usize) -> (r: Self)
        requires
            pixels * 4 <= usize::MAX,
        ensures
            r.wf(),
            r.samples() == Seq::<Seq<u8>>::empty(),
            r.len() == 3 * pixels,
    {
        let mut sums: Vec<u32> = Vec::new();
        while sums.len() < 3 * pixels
            invariant
                pixels * 4 <= usize::MAX,
                sums@.len() <= 3 * pixels,
                forall|j: int| 0 <= j < sums@.len() ==> sums@[j] == 0,
            decreases 3 * pixels - sums.len(),
        {
            sums.push(0);
        }
        FrameMixer { sums, count: 0, samples: Ghost(Seq::empty()) }
    }

    /// The number of samples so far.
    pub fn count(&self) -> (r: u32)
        requires
            self.wf(),
        ensures
            r == self.samples().len(),
    {
        self.count
    }

    /// Adds a sample, without its alpha channel.
    pub fn add_sample(&mut self, rgba: &[u8])
        requires
            old(self).wf(),
            old(self).samples().len() < MAX_SAMPLES,
            rgba@.len() / 4 * 3 == old(self).len(),
        ensures
            final(self).wf(),
            final(self).len() == old(self).len(),
            final(self).samples() == old(self).samples().push(without_alpha(rgba@)),
    {
        let ghost before = self.samples@;
        let ghost picture = without_alpha(rgba@);
        let ghost old_sums = self.sums@;
        let total: usize = rgba.len();
        let mut j: usize = 0;
        while j < self.sums.len()
            invariant
                j <= self.sums@.len(),
                self.sums@.len() == old_sums.len(),
                old_sums.len() == rgba@.len() / 4 * 3,
                total == rgba@.len(),
                old_sums.len() % 3 == 0,
                picture == without_alpha(rgba@),
                before == self.samples@,
                before == old(self).samples@,
                self.count == old(self).count,
                before.len() < MAX_SAMPLES,
                forall|k: int| 0 <= k < old_sums.len() ==> (#[trigger] old_sums[k]) as int == byte_sum(before, k),
                forall|k: int| 0 <= k < j ==> (#[trigger] self.sums@[k]) as int == byte_sum(before, k) + picture[k],
                forall|k: int| j <= k < old_sums.len() ==> #[trigger] self.sums@[k] == old_sums[k],
            decreases self.sums.len() - j,
        {
            proof {
                lemma_byte_sum_bounds(before, j as int);
                assert(j / 3 * 4 + j % 3 < rgba@.len());
            }
            let sum: u32 = self.sums[j];
            self.sums[j] = sum + rgba[j / 3 * 4 + j % 3] as u32;
            j = j + 1;
        }
        self.count = self.count + 1;
        proof {
            self.samples@ = before.push(picture);
            assert(self.samples@.drop_last() == before);
            assert forall|i: int| 0 <= i < self.samples@.len() implies (#[trigger] self.samples@[i]).len()
                == self.sums@.len() by {
                if i < before.len() {
                    assert(self.samples@[i] == before[i]);
                }
            }
        }
    }

    /// The mean of the samples as an RGB picture.
    pub fn mean_rgb(&self) -> (r: Vec<u8>)
        requires
            self.wf(),
            self.samples().len() > 0,
        ensures
            r@ == mean(self.samples(), self.len()),
    {
        let mut out: Vec<u8> = Vec::new();
        let mut j: usize = 0;
        while j < self.sums.len()
            invariant
                self.wf(),
                self.samples().len() > 0,
                j <= self.sums@.len(),
                out@.len() == j,
                forall|k: int| 0 <= k < j ==> out@[k] == mean(self.samples(), self.len())[k],
            decreases self.sums.len() - j,
        {
            proof {
                lemma_byte_sum_bounds(self.samples@, j as int);
                let n = self.samples@.len() as int;
                let sum = byte_sum(self.samples@, j as int);
                vstd::arithmetic::div_mod::lemma_fundamental_div_mod(sum, n);
                vstd::arithmetic::div_mod::lemma_mod_bound(sum, n);
                assert(0 <= sum / n <= 255) by (nonlinear_arith)
                    requires
                        0 <= sum <= 255 * n,
                        sum == n * (sum / n) + sum % n,
                        0 <= sum % n < n,
                ;
            }
            out.push((self.sums[j] / self.count) as u8);
            j = j + 1;
        }
        out
    }

    /// Forgets the samples.
    pub fn clear(&mut self)
        requires
            old(self).wf(),
        ensures
            final(self).wf(),
            final(self).len() == old(self).len(),
            final(self).samples() == Seq::<Seq<u8>>::empty(),
    {
        let ghost len = self.sums@.len();
        let mut j: usize = 0;
        while j < self.sums.len()
            invariant
                j <= self.sums@.len(),
                self.sums@.len() == len,
                len % 3 == 0,
                forall|k: int| 0 <= k < j ==> #[trigger] self.sums@[k] == 0,
            decreases self.sums.len() - j,
        {
            self.sums[j] = 0;
            j = j + 1;
        }
        self.count = 0;
        proof {
            self.samples@ = Seq::empty();
        }
    }
}

/// A pixel keeps its red, green and blue when the alpha channel is dropped, and gets them back
/// with an opaque alpha when one is added.
pub proof fn law_pixels_keep_their_colours(rgba: Seq<u8>, rgb: Seq<u8>, p: int, c: int)
    requires
        0 <= p,
        0 <= c < 3,
    ensures
        4 * p + 3 < rgba.len() ==> without_alpha(rgba)[3 * p + c] == rgba[4 * p + c],
        3 * p + 2 < rgb.len() ==> with_alpha(rgb)[4 * p + c] == rgb[3 * p + c] && with_alpha(rgb)[4 * p + 3] == 255,
        without_alpha(rgba).len() == rgba.len() / 4 * 3,
        with_alpha(rgb).len() == rgb.len() / 3 * 4,
{
    assert((3 * p + c) / 3 == p && (3 * p + c) % 3 == c);
    assert((4 * p + c) / 4 == p && (4 * p + c) % 4 == c);
    assert((4 * p + 3) / 4 == p && (4 * p + 3) % 4 == 3);
}

/// Every picture counts once in the sum of a byte, whatever its place.
pub proof fn law_every_sample_counts(before: Seq<Seq<u8>>, picture: Seq<u8>, after: Seq<Seq<u8>>, j: int)
    ensures
        byte_sum(before.push(picture) + after, j) == byte_sum(before, j) + picture[j] + byte_sum(after, j),
        byte_sum(Seq::empty(), j) == 0,
    decreases after.len(),
{
    if after.len() == 0 {
        assert(before.push(picture) + after =~= before.push(picture));
        assert(before.push(picture).drop_last() =~= before);
    } else {
        let all = before.push(picture) + after;
        assert(all.drop_last() =~= before.push(picture) + after.drop_last());
        assert(all.last() == after.last());
        law_every_sample_counts(before, picture, after.drop_last(), j);
    }
}

/// The mean of a byte is its sum over the number of pictures, without the fraction.
pub proof fn law_mean_shares_the_sum(pictures: Seq<Seq<u8>>, len: nat, j: int)
    requires
        pictures.len() > 0,
        0 <= j < len,
    ensures
        mean(pictures, len).len() == len,
        mean(pictures, len)[j] * pictures.len() <= byte_sum(pictures, j),
        byte_sum(pictures, j) < (mean(pictures, len)[j] + 1) * pictures.len(),
{
    lemma_byte_sum_bounds(pictures, j);
    let n = pictures.len() as int;
    let sum = byte_sum(pictures, j);
    vstd::arithmetic::div_mod::lemma_fundamental_div_mod(sum, n);
    vstd::arithmetic::div_mod::lemma_mod_bound(sum, n);
    let q = sum / n;
    assert(0 <= q <= 255) by (nonlinear_arith)
        requires
            0 <= sum <= 255 * n,
            sum == n * q + sum % n,
            0 <= sum % n < n,
    ;
    assert(q * n == n * q && (q + 1) * n == n * q + n) by (nonlinear_arith);
}

/// The mean of two pictures lies halfway between them.
pub proof fn law_mean_of_two_pictures(a: Seq<u8>, b: Seq<u8>, len: nat, j: int)
    requires
        0 <= j < len,
    ensures
        mean(seq![a, b], len)[j] == (a[j] + b[j]) / 2,
        mean(seq![a, b], len)[j] == mean(seq![b, a], len)[j],
{
    reveal_with_fuel(byte_sum, 3);
    assert(seq![a, b].drop_last() =~= seq![a]);
    assert(seq![b, a].drop_last() =~= seq![b]);
    assert(seq![a].drop_last() =~= Seq::empty());
    assert(seq![b].drop_last() =~= Seq::empty());
}

} // verus!
