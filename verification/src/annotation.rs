//! Annotation colors and the pixel blending used when annotations are
//! flattened onto a capture.
use vstd::prelude::*;

verus! {

/// A straight (not premultiplied) RGBA color.
#[derive(Clone, Copy, Debug, PartialEq, Eq, Structural)]
pub struct Color {
    red: u8,
    green: u8,
    blue: u8,
    alpha: u8,
}

impl Color {
    pub closed spec fn red_spec(self) -> u8 {
        self.red
    }

    pub closed spec fn green_spec(self) -> u8 {
        self.green
    }

    pub closed spec fn blue_spec(self) -> u8 {
        self.blue
    }

    pub closed spec fn alpha_spec(self) -> u8 {
        self.alpha
    }

    pub fn rgba(red: u8, green: u8, blue: u8, alpha: u8) -> (color: Self)
        ensures
            color.red_spec() == red,
            color.green_spec() == green,
            color.blue_spec() == blue,
            color.alpha_spec() == alpha,
    {
        Color { red, green, blue, alpha }
    }

    /// Two colors are equal exactly when their channels are.
    pub proof fn lemma_equal(self, other: Self)
        ensures
            (self == other) <==> (self.red_spec() == other.red_spec() && self.green_spec()
                == other.green_spec() && self.blue_spec() == other.blue_spec() && self.alpha_spec()
                == other.alpha_spec()),
    {
    }

    pub fn red(self) -> (red: u8)
        ensures
            red == self.red_spec(),
    {
        self.red
    }

    pub fn green(self) -> (green: u8)
        ensures
            green == self.green_spec(),
    {
        self.green
    }

    pub fn blue(self) -> (blue: u8)
        ensures
            blue == self.blue_spec(),
    {
        self.blue
    }

    pub fn alpha(self) -> (alpha: u8)
        ensures
            alpha == self.alpha_spec(),
    {
        self.alpha
    }
}

/// Alpha after drawing a layer of alpha `source_alpha` over one of alpha
/// `destination_alpha`, rounded to the nearest byte.
pub open spec fn over_alpha(source_alpha: int, destination_alpha: int) -> int {
    source_alpha + (destination_alpha * (255 - source_alpha) + 127) / 255
}

/// A premultiplied channel turned back into a straight one, given the
/// output alpha, rounded to nearest and capped at 255.
pub open spec fn unpremultiplied(premultiplied: int, alpha: int) -> int {
    let value = (premultiplied * 255 + alpha / 2) / alpha;
    if value < 255 {
        value
    } else {
        255
    }
}

/// A destination channel after drawing a premultiplied source channel over
/// it.
pub open spec fn over_premultiplied_channel(
    source_premultiplied: int,
    source_alpha: int,
    destination: int,
    destination_alpha: int,
) -> int {
    let destination_premultiplied = (destination * destination_alpha + 127) / 255;
    unpremultiplied(
        source_premultiplied + (destination_premultiplied * (255 - source_alpha) + 127) / 255,
        over_alpha(source_alpha, destination_alpha),
    )
}

/// A destination channel after drawing a straight source channel over it.
pub open spec fn over_straight_channel(
    source: int,
    source_alpha: int,
    destination: int,
    destination_alpha: int,
) -> int {
    over_premultiplied_channel(
        source * source_alpha / 255,
        source_alpha,
        destination,
        destination_alpha,
    )
}

/// Pixel `pixel` of RGBA bytes.
pub open spec fn pixel_at(bytes: Seq<u8>, pixel: int) -> Seq<u8> {
    bytes.subrange(4 * pixel, 4 * pixel + 4)
}

/// The straight RGBA pixel `destination` after drawing the straight pixel
/// `source` over it.
pub open spec fn straight_over(destination: Seq<u8>, source: Seq<u8>) -> Seq<u8> {
    if source[3] == 0 {
        destination
    } else {
        Seq::new(
            4,
            |channel: int|
                if channel == 3 {
                    over_alpha(source[3] as int, destination[3] as int) as u8
                } else {
                    over_straight_channel(
                        source[channel] as int,
                        source[3] as int,
                        destination[channel] as int,
                        destination[3] as int,
                    ) as u8
                },
        )
    }
}

/// The straight RGBA pixel `destination` after drawing the premultiplied
/// pixel `source` over it.
pub open spec fn premultiplied_over(destination: Seq<u8>, source: Seq<u8>) -> Seq<u8> {
    if source[3] == 0 {
        destination
    } else {
        Seq::new(
            4,
            |channel: int|
                if channel == 3 {
                    over_alpha(source[3] as int, destination[3] as int) as u8
                } else {
                    over_premultiplied_channel(
                        source[channel] as int,
                        source[3] as int,
                        destination[channel] as int,
                        destination[3] as int,
                    ) as u8
                },
        )
    }
}

proof fn lemma_over_alpha_bounds(source_alpha: int, destination_alpha: int)
    requires
        1 <= source_alpha <= 255,
        0 <= destination_alpha <= 255,
    ensures
        source_alpha <= over_alpha(source_alpha, destination_alpha) <= 255,
        0 <= destination_alpha * (255 - source_alpha) <= 255 * 254,
{
    assert(0 <= destination_alpha * (255 - source_alpha) <= 255 * (255 - source_alpha))
        by (nonlinear_arith)
        requires
            1 <= source_alpha <= 255,
            0 <= destination_alpha <= 255,
    ;
    assert(255 * (255 - source_alpha) + 127 < 255 * (256 - source_alpha));
    assert((destination_alpha * (255 - source_alpha) + 127) / 255 <= 255 - source_alpha)
        by (nonlinear_arith)
        requires
            destination_alpha * (255 - source_alpha) + 127 < 255 * (256 - source_alpha),
            0 <= destination_alpha * (255 - source_alpha),
    ;
}

/// One channel of a blend, in machine integers.
fn blend_channel(
    source_premultiplied: u32,
    source_alpha: u32,
    destination: u8,
    destination_alpha: u32,
) -> (channel: u8)
    requires
        1 <= source_alpha <= 255,
        destination_alpha <= 255,
        source_premultiplied <= 255,
    ensures
        channel == over_premultiplied_channel(
            source_premultiplied as int,
            source_alpha as int,
            destination as int,
            destination_alpha as int,
        ),
{
    let inverse_source_alpha = 255 - source_alpha;
    proof {
        lemma_over_alpha_bounds(source_alpha as int, destination_alpha as int);
        assert(destination as u32 * destination_alpha <= 255 * 255) by (nonlinear_arith)
            requires
                destination <= 255,
                destination_alpha <= 255,
        ;
    }
    let output_alpha = source_alpha + (destination_alpha * inverse_source_alpha + 127) / 255;
    let destination_premultiplied = (destination as u32 * destination_alpha + 127) / 255;
    proof {
        assert(destination_premultiplied * inverse_source_alpha <= 255 * 255) by (nonlinear_arith)
            requires
                destination_premultiplied <= 255,
                inverse_source_alpha <= 255,
        ;
    }
    let output_premultiplied = source_premultiplied + (destination_premultiplied
        * inverse_source_alpha + 127) / 255;
    let value = (output_premultiplied * 255 + output_alpha / 2) / output_alpha;
    if value < 255 {
        value as u8
    } else {
        255
    }
}

/// Draws the straight RGBA pixel `source` over the straight RGBA pixel held
/// in the first four bytes of `destination`.
pub fn blend_straight_pixel(destination: &mut [u8], source: [u8; 4])
    requires
        old(destination)@.len() >= 4,
    ensures
        final(destination)@.len() == old(destination)@.len(),
        final(destination)@.take(4) == straight_over(old(destination)@.take(4), source@),
        final(destination)@.skip(4) == old(destination)@.skip(4),
{
    let source_alpha = source[3] as u32;
    if source_alpha == 0 {
        proof {
            assert(straight_over(old(destination)@.take(4), source@) == old(destination)@.take(4));
        }
        return;
    }
    let ghost before = destination@;
    let destination_alpha = destination[3] as u32;
    let mut channel: usize = 0;
    while channel < 3
        invariant
            channel <= 3,
            1 <= source_alpha <= 255,
            source_alpha == source@[3],
            destination_alpha == before[3],
            destination@.len() == before.len(),
            before.len() >= 4,
            forall|i: int| channel <= i < before.len() ==> destination@[i] == before[i],
            forall|i: int|
                0 <= i < channel ==> destination@[i] == over_straight_channel(
                    source@[i] as int,
                    source_alpha as int,
                    before[i] as int,
                    destination_alpha as int,
                ) as u8,
        decreases 3 - channel,
    {
        proof {
            assert(source[channel as int] as u32 * source_alpha <= 255 * 255) by (nonlinear_arith)
                requires
                    source[channel as int] <= 255,
                    source_alpha <= 255,
            ;
            assert(source[channel as int] as u32 * source_alpha / 255 <= 255);
        }
        let premultiplied = source[channel] as u32 * source_alpha / 255;
        let value = blend_channel(premultiplied, source_alpha, destination[channel], destination_alpha);
        destination[channel] = value;
        channel += 1;
    }
    proof {
        lemma_over_alpha_bounds(source_alpha as int, destination_alpha as int);
    }
    let output_alpha = source_alpha + (destination_alpha * (255 - source_alpha) + 127) / 255;
    destination[3] = output_alpha as u8;
    proof {
        assert(destination@.take(4) =~= straight_over(before.take(4), source@));
        assert(destination@.skip(4) =~= before.skip(4));
    }
}

/// Draws the premultiplied RGBA pixels of `source` over the straight RGBA
/// pixels of `destination`, pixel by pixel.
pub fn blend_premultiplied_over_straight(destination: &mut [u8], source: &[u8])
    requires
        old(destination)@.len() == source@.len(),
    ensures
        final(destination)@.len() == old(destination)@.len(),
        forall|pixel: int|
            0 <= pixel < source@.len() / 4 ==> #[trigger] pixel_at(final(destination)@, pixel)
                == premultiplied_over(
                pixel_at(old(destination)@, pixel),
                pixel_at(source@, pixel),
            ),
        forall|i: int|
            source@.len() / 4 * 4 <= i < source@.len() ==> final(destination)@[i] == old(
                destination,
            )@[i],
{
    let length = source.len();
    let ghost before = destination@;
    let mut base: usize = 0;
    while length - base >= 4
        invariant
            length == source@.len(),
            destination@.len() == length,
            before.len() == length,
            base % 4 == 0,
            base <= length,
            forall|i: int| base <= i < length ==> destination@[i] == before[i],
            forall|pixel: int|
                0 <= pixel < base / 4 ==> #[trigger] pixel_at(destination@, pixel)
                    == premultiplied_over(
                    pixel_at(before, pixel),
                    pixel_at(source@, pixel),
                ),
        decreases length - base,
    {
        let source_alpha = source[base + 3] as u32;
        let ghost previous = destination@;
        if source_alpha != 0 {
            let destination_alpha = destination[base + 3] as u32;
            let mut channel: usize = 0;
            while channel < 3
                invariant
                    channel <= 3,
                    base + 4 <= length,
                    length == source@.len(),
                    base % 4 == 0,
                    1 <= source_alpha <= 255,
                    source_alpha == source@[base + 3],
                    destination_alpha == before[base + 3],
                    destination@.len() == length,
                    forall|i: int|
                        0 <= i < length && !(base <= i < base + channel) ==> destination@[i]
                            == previous[i],
                    forall|i: int|
                        base <= i < base + channel ==> destination@[i]
                            == over_premultiplied_channel(
                            source@[i] as int,
                            source_alpha as int,
                            before[i] as int,
                            destination_alpha as int,
                        ) as u8,
                    forall|i: int| base <= i < length ==> previous[i] == before[i],
                decreases 3 - channel,
            {
                let index = base + channel;
                let value = blend_channel(
                    source[index] as u32,
                    source_alpha,
                    destination[index],
                    destination_alpha,
                );
                destination[index] = value;
                channel += 1;
            }
            proof {
                lemma_over_alpha_bounds(source_alpha as int, destination_alpha as int);
            }
            let output_alpha = source_alpha + (destination_alpha * (255 - source_alpha) + 127)
                / 255;
            destination[base + 3] = output_alpha as u8;
        }
        proof {
            let pixel: int = (base / 4) as int;
            assert(4 * pixel == base);
            assert(pixel_at(destination@, pixel) =~= premultiplied_over(
                pixel_at(before, pixel),
                pixel_at(source@, pixel),
            ));
            assert forall|other: int| 0 <= other < base / 4 implies #[trigger] pixel_at(destination@, other) == premultiplied_over(
                pixel_at(before, other),
                pixel_at(source@, other),
            ) by {
                assert(pixel_at(destination@, other) =~= pixel_at(previous, other));
            }
        }
        base += 4;
    }
}

/// An opaque source pixel replaces the destination pixel.
pub proof fn lemma_opaque_source_replaces(destination: Seq<u8>, source: Seq<u8>)
    requires
        destination.len() == 4,
        source.len() == 4,
        source[3] == 255,
    ensures
        straight_over(destination, source) == source,
{
    assert forall|channel: int| 0 <= channel < 3 implies over_straight_channel(
        source[channel] as int,
        255,
        destination[channel] as int,
        destination[3] as int,
    ) == source[channel] by {
        let s = source[channel] as int;
        assert(s * 255 / 255 == s) by (nonlinear_arith)
            requires
                0 <= s <= 255,
        ;
        assert((s * 255 + 127) / 255 == s) by (nonlinear_arith)
            requires
                0 <= s <= 255,
        ;
    }
    assert(straight_over(destination, source) =~= source);
}

/// A transparent source pixel leaves the destination pixel unchanged.
pub proof fn lemma_transparent_source_keeps(destination: Seq<u8>, source: Seq<u8>)
    requires
        source.len() == 4,
        source[3] == 0,
    ensures
        straight_over(destination, source) == destination,
        premultiplied_over(destination, source) == destination,
{
}

/// Drawing over an opaque destination leaves it opaque.
pub proof fn lemma_opaque_destination_stays_opaque(source_alpha: u8)
    ensures
        over_alpha(source_alpha as int, 255) == 255,
{
    let a = source_alpha as int;
    assert((255 * (255 - a) + 127) / 255 == 255 - a) by (nonlinear_arith)
        requires
            0 <= a <= 255,
    ;
}

/// Drawing a premultiplied pixel over an opaque one keeps it opaque, and
/// the opaque pixel shows through the source's transparency: each colour
/// channel is the source's premultiplied channel plus the destination's
/// channel scaled by `(255 - alpha) / 255`, rounded to nearest.
pub proof fn lemma_premultiplied_over_opaque(destination: Seq<u8>, source: Seq<u8>, channel: int)
    requires
        destination.len() == 4,
        source.len() == 4,
        destination[3] == 255,
        0 <= channel < 3,
        source[channel] <= source[3],
    ensures
        premultiplied_over(destination, source)[3] == 255,
        ({
            let shown = premultiplied_over(destination, source)[channel] - source[channel];
            let weighted = destination[channel] * (255 - source[3]);
            255 * shown <= weighted + 127 && weighted + 127 < 255 * (shown + 1)
        }),
{
    let a = source[3] as int;
    let s = source[channel] as int;
    let d = destination[channel] as int;
    if a == 0 {
        assert(s == 0);
        assert(premultiplied_over(destination, source) == destination);
        assert(d * 255 == 255 * d);
    } else {
        assert((d * 255 + 127) / 255 == d) by (nonlinear_arith)
            requires
                0 <= d <= 255,
        ;
        assert((255 * (255 - a) + 127) / 255 == 255 - a) by (nonlinear_arith)
            requires
                1 <= a <= 255,
        ;
        assert(over_alpha(a, 255) == 255);
        let weighted = d * (255 - a);
        let shown = (weighted + 127) / 255;
        assert(0 <= weighted <= 255 * (255 - a)) by (nonlinear_arith)
            requires
                0 <= d <= 255,
                1 <= a <= 255,
                weighted == d * (255 - a),
        ;
        assert(shown <= 255 - a) by (nonlinear_arith)
            requires
                0 <= weighted <= 255 * (255 - a),
                shown == (weighted + 127) / 255,
                1 <= a <= 255,
        ;
        assert(255 * shown <= weighted + 127 && weighted + 127 < 255 * (shown + 1)) by (nonlinear_arith)
            requires
                shown == (weighted + 127) / 255,
                weighted >= 0,
        ;
        let v = s + shown;
        assert(0 <= v <= 255);
        assert((v * 255 + 255int / 2) / 255 == v) by (nonlinear_arith)
            requires
                0 <= v <= 255,
        ;
        assert(unpremultiplied(v, 255) == v);
        assert(over_premultiplied_channel(s, a, d, 255) == v);
    }
}

} // verus!
