use rand::Rng;
use vstd::prelude::*;

verus! {

/// A 24-bit RGB color packed as `0x00RRGGBB`.
#[derive(Debug, Clone, Copy, Default, PartialEq, Eq, Structural)]
pub struct MIDIColor(u32);

/// The packed value of the channels `r`, `g`, `b`.
pub open spec fn packed_rgb(r: u8, g: u8, b: u8) -> int {
    r as int * 65536 + g as int * 256 + b as int
}

/// The hue, in eighths of a degree, of palette slot `slot`: slot `i` sits at
/// `i * 337.5` degrees, so the hues repeat every sixteen slots.
pub open spec fn slot_hue_spec(slot: int) -> int {
    (slot * 2700) % 2880
}

/// Whether `c` is made of three channels, each below 255.
pub open spec fn channels_below_max(c: MIDIColor) -> bool {
    exists|r: u8, g: u8, b: u8|
        r < 255 && g < 255 && b < 255 && c.value() as int == #[trigger] packed_rgb(r, g, b)
}

/// Relies on rand's `thread_rng` and `Rng::gen_range`, which draws a value from
/// the half-open range it is given (here `0..255`, which is not empty).
#[verifier::external_body]
fn random_channel() -> (r: u8)
    ensures
        r < 255,
{
    rand::thread_rng().gen_range(0u8..255u8)
}

/// The hue of a palette slot depends only on the slot modulo sixteen.
pub proof fn lemma_slot_hue_period(slot: int)
    requires
        slot >= 0,
    ensures
        slot_hue_spec(slot) == slot_hue_spec(slot % 16),
{
    let q = slot / 16;
    let k = slot % 16;
    assert(slot * 2700 == 2880 * (15 * q) + k * 2700) by (nonlinear_arith)
        requires
            slot == 16 * q + k,
    ;
    vstd::arithmetic::div_mod::lemma_mod_multiples_vanish(15 * q, k * 2700, 2880);
}

impl MIDIColor {
    /// The packed value of this color.
    pub closed spec fn value(self) -> u32 {
        self.0
    }

    pub fn new(r: u8, g: u8, b: u8) -> (c: Self)
        ensures
            c.value() as int == packed_rgb(r, g, b),
    {
        let num = (b as u32) | ((g as u32) << 8u32) | ((r as u32) << 16u32);
        assert(((b as u32) | ((g as u32) << 8u32) | ((r as u32) << 16u32)) == (r as u32)
            * 65536 + (g as u32) * 256 + (b as u32)) by (bit_vector)
            requires
                b < 256,
                g < 256,
                r < 256,
        ;
        MIDIColor(num)
    }

    pub fn as_u32(&self) -> (r: u32)
        ensures
            r == self.value(),
    {
        self.0
    }

    pub fn red(&self) -> (r: u8)
        ensures
            r as int == (self.value() as int / 65536) % 256,
    {
        let v = self.0;
        assert(((v >> 16u32) as u8) as u32 == (v / 65536) % 256) by (bit_vector);
        (v >> 16u32) as u8
    }

    pub fn green(&self) -> (r: u8)
        ensures
            r as int == (self.value() as int / 256) % 256,
    {
        let v = self.0;
        assert(((v >> 8u32) as u8) as u32 == (v / 256) % 256) by (bit_vector);
        (v >> 8u32) as u8
    }

    pub fn blue(&self) -> (r: u8)
        ensures
            r as int == self.value() as int % 256,
    {
        let v = self.0;
        assert((v as u8) as u32 == v % 256) by (bit_vector);
        v as u8
    }

    /// The hue of palette slot `slot`, in eighths of a degree.
    pub fn slot_hue(slot: usize) -> (h: u32)
        ensures
            h as int == slot_hue_spec(slot as int),
    {
        let k = slot % 16;
        proof {
            lemma_slot_hue_period(slot as int);
        }
        ((k as u32) * 2700) % 2880
    }

    /// The deterministic palette for `tracks` tracks: sixteen slots per track,
    /// slot `i` colored with the hue of `slot_hue(i)`. `hue_colors[k]` is the
    /// color of the hue of slot `k` (saturation 1, value 0.8); since the hues
    /// repeat every sixteen slots, the palette repeats those sixteen colors.
    pub fn new_vec_for_tracks(tracks: usize, hue_colors: &Vec<MIDIColor>) -> (r: Vec<Self>)
        requires
            hue_colors@.len() == 16,
            tracks * 16 <= usize::MAX,
        ensures
            r@.len() == tracks * 16,
            forall|i: int| 0 <= i < r@.len() ==> r@[i] == hue_colors@[i % 16],
    {
        let count = tracks * 16;
        let mut vec: Vec<Self> = Vec::with_capacity(count);
        let mut i: usize = 0;
        while i < count
            invariant
                count == tracks * 16,
                hue_colors@.len() == 16,
                i <= count,
                vec@.len() == i,
                forall|j: int| 0 <= j < i ==> vec@[j] == hue_colors@[j % 16],
            decreases count - i,
        {
            vec.push(hue_colors[i % 16]);
            i = i + 1;
        }
        vec
    }

    /// A palette of `tracks * 16` independently drawn colors, each channel below 255.
    pub fn new_random_vec_for_tracks(tracks: usize) -> (r: Vec<Self>)
        requires
            tracks * 16 <= usize::MAX,
        ensures
            r@.len() == tracks * 16,
            forall|i: int| 0 <= i < r@.len() ==> channels_below_max(#[trigger] r@[i]),
    {
        let count = tracks * 16;
        let mut vec: Vec<Self> = Vec::with_capacity(count);
        let mut i: usize = 0;
        while i < count
            invariant
                count == tracks * 16,
                i <= count,
                vec@.len() == i,
                forall|j: int| 0 <= j < i ==> channels_below_max(#[trigger] vec@[j]),
            decreases count - i,
        {
            let r = random_channel();
            let g = random_channel();
            let b = random_channel();
            let c = MIDIColor::new(r, g, b);
            vec.push(c);
            assert(channels_below_max(c)) by {
                assert(c.value() as int == packed_rgb(r, g, b));
            }
            assert(vec@[i as int] == c);
            i = i + 1;
        }
        vec
    }
}

} // verus!
