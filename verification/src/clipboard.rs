//! Pixel conversion for the Windows clipboard's `CF_DIBV5` format.
use vstd::prelude::*;

verus! {

/// Failures of clipboard pixel conversion.
#[derive(Clone, Debug, PartialEq, Eq, Structural)]
pub enum ClipboardError {
    /// The buffers differ in length or do not hold whole pixels.
    InvalidBufferLength,
}

impl ClipboardError {
    /// Human-readable description.
    pub fn message(&self) -> (message: &'static str)
        ensures
            message@ == "invalid RGBA clipboard buffer length"@,
    {
        "invalid RGBA clipboard buffer length"
    }
}

/// Byte `i` of the BGRA form of RGBA bytes: red and blue trade places.
pub open spec fn swapped_red_blue(rgba: Seq<u8>, i: int) -> u8 {
    let channel = i % 4;
    let base = i - channel;
    if channel == 0 {
        rgba[base + 2]
    } else if channel == 2 {
        rgba[base]
    } else {
        rgba[i]
    }
}

/// The BGRA form of RGBA bytes.
pub open spec fn bgra_of(rgba: Seq<u8>) -> Seq<u8> {
    Seq::new(rgba.len(), |i: int| swapped_red_blue(rgba, i))
}

/// Writes the BGRA form of `source` into `destination`.
pub fn rgba_to_bgra(source: &[u8], destination: &mut [u8]) -> (result: Result<(), ClipboardError>)
    ensures
        result is Ok <==> source@.len() == old(destination)@.len() && source@.len() % 4 == 0,
        result is Ok ==> final(destination)@ == bgra_of(source@),
        result is Err ==> final(destination)@ == old(destination)@ && result
            == Err::<(), ClipboardError>(ClipboardError::InvalidBufferLength),
{
    if source.len() != destination.len() || source.len() % 4 != 0 {
        return Err(ClipboardError::InvalidBufferLength);
    }
    let length = source.len();
    let mut base: usize = 0;
    while base < length
        invariant
            length == source@.len(),
            length == destination@.len(),
            length % 4 == 0,
            base <= length,
            base % 4 == 0,
            forall|i: int| 0 <= i < base ==> destination@[i] == swapped_red_blue(source@, i),
        decreases length - base,
    {
        let red = source[base];
        let green = source[base + 1];
        let blue = source[base + 2];
        let alpha = source[base + 3];
        destination[base] = blue;
        destination[base + 1] = green;
        destination[base + 2] = red;
        destination[base + 3] = alpha;
        base += 4;
    }
    proof {
        assert(destination@ =~= bgra_of(source@));
    }
    Ok(())
}

/// Converting to BGRA twice gives back the original bytes.
pub proof fn lemma_bgra_involution(rgba: Seq<u8>)
    requires
        rgba.len() % 4 == 0,
    ensures
        bgra_of(bgra_of(rgba)) == rgba,
{
    assert(bgra_of(bgra_of(rgba)) =~= rgba);
}

} // verus!
