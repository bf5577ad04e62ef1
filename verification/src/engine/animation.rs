use vstd::prelude::*;
use glam::{Quat, Vec3};

verus! {

/// glam's 3-vector, carried through as an opaque value.
#[verifier::external_type_specification]
#[verifier::external_body]
pub struct ExVec3(Vec3);

/// glam's rotation quaternion, carried through as an opaque value.
#[verifier::external_type_specification]
#[verifier::external_body]
pub struct ExQuat(Quat);

/// Interpolation method between keyframes.
#[derive(Clone, Copy, Debug, PartialEq, Eq, Structural)]
pub enum Interpolation {
    /// Linear interpolation.
    Linear,
    /// Smooth cubic Hermite (ease in/out).
    Smooth,
    /// Discrete step (no interpolation, holds the previous value).
    Step,
}

/// The sign bit of an IEEE-754 single-precision bit pattern.
pub open spec fn sign_bit() -> int {
    0x8000_0000
}

/// The bit pattern of negative infinity; every pattern above it is a NaN
/// with the sign bit set.
pub open spec fn negative_infinity_bits() -> int {
    0xFF80_0000
}

/// The position of a single-precision value in the order of values: for
/// patterns that are not NaN, `a < b` as floats exactly when
/// `float_rank(a) < float_rank(b)`, and `-0.0` ranks with `0.0`. Positive
/// patterns grow with their bits, negative ones shrink with their magnitude.
/// A NaN ranks above positive infinity whatever its sign: a NaN with the
/// sign bit set ranks with the positive NaN of the same payload.
pub open spec fn float_rank(bits: u32) -> int {
    if bits > negative_infinity_bits() {
        bits - sign_bit()
    } else if bits >= sign_bit() {
        sign_bit() - bits
    } else {
        bits as int
    }
}

/// The time code of bits `bits`: the rank shifted to be positive.
pub open spec fn code_of(bits: u32) -> int {
    float_rank(bits) + sign_bit()
}

/// The bits that code `code` decodes to; zero decodes to `0.0`, and a NaN
/// to the positive NaN of its payload.
pub open spec fn bits_of(code: u32) -> int {
    if code >= sign_bit() {
        code - sign_bit()
    } else {
        sign_bit() + (sign_bit() - code)
    }
}

/// The time code of the time with IEEE-754 bits `time_bits`. Codes order
/// like times, `-0.0` codes like `0.0`, and every NaN codes above positive
/// infinity.
pub fn time_code(time_bits: u32) -> (code: u32)
    ensures
        code == code_of(time_bits),
        code > 0,
{
    if time_bits > 0xFF80_0000 {
        time_bits
    } else if time_bits >= 0x8000_0000 {
        0x8000_0000 - (time_bits - 0x8000_0000)
    } else {
        time_bits + 0x8000_0000
    }
}

/// The IEEE-754 bits of the time that a code stands for.
pub fn time_bits(code: u32) -> (bits: u32)
    requires
        code > 0,
    ensures
        bits == bits_of(code),
{
    if code >= 0x8000_0000 {
        code - 0x8000_0000
    } else {
        0x8000_0000 + (0x8000_0000 - code)
    }
}

/// Time codes keep the order of times, `-0.0` and `0.0` share a code, every
/// NaN codes above positive infinity, and decoding a code gives back the
/// time it was made from (`-0.0` as `0.0`, a NaN without its sign); every
/// code from negative infinity's up encodes the time it decodes to.
pub proof fn lemma_time_code_laws(a: u32, b: u32, c: u32)
    requires
        c >= code_of(negative_infinity_bits() as u32),
    ensures
        code_of(a) < code_of(b) <==> float_rank(a) < float_rank(b),
        code_of(sign_bit() as u32) == code_of(0),
        (a > negative_infinity_bits() || 0x7F80_0000 < a < sign_bit()) ==> code_of(a) > code_of(
            0x7F80_0000,
        ),
        bits_of(code_of(a) as u32) == (if a == sign_bit() {
            0
        } else if a > negative_infinity_bits() {
            a - sign_bit()
        } else {
            a as int
        }),
        code_of(bits_of(c) as u32) == c,
{
}

/// The magnitude of a single-precision pattern: its bits with the sign bit
/// cleared.
pub open spec fn magnitude_bits(bits: u32) -> int {
    if bits >= 0x8000_0000 {
        bits - 0x8000_0000
    } else {
        bits as int
    }
}

/// Whether a pattern is a NaN: exponent all ones and a nonzero fraction.
pub open spec fn is_nan_bits(bits: u32) -> bool {
    magnitude_bits(bits) > 0x7F80_0000
}

/// IEEE-754 `<` on patterns that are not NaN: the two zeros are equal, a
/// negative value lies below every positive one, positive values grow with
/// their magnitude and negative ones shrink with it.
pub open spec fn ieee_less(a: u32, b: u32) -> bool {
    let neg_a = a >= 0x8000_0000;
    let neg_b = b >= 0x8000_0000;
    if magnitude_bits(a) == 0 && magnitude_bits(b) == 0 {
        false
    } else if neg_a && !neg_b {
        true
    } else if !neg_a && neg_b {
        false
    } else if !neg_a {
        magnitude_bits(a) < magnitude_bits(b)
    } else {
        magnitude_bits(a) > magnitude_bits(b)
    }
}

/// IEEE-754 `==` on patterns that are not NaN: the same bits, or two zeros.
pub open spec fn ieee_equal(a: u32, b: u32) -> bool {
    a == b || (magnitude_bits(a) == 0 && magnitude_bits(b) == 0)
}

/// Time codes order exactly as the times compare as floats: for times that
/// are not NaN, one code is below another exactly when its time is less, and
/// equal exactly when the times are equal; a NaN codes above every other time.
pub proof fn lemma_time_code_order(a: u32, b: u32)
    ensures
        !is_nan_bits(a) && !is_nan_bits(b) ==> (code_of(a) < code_of(b) <==> ieee_less(a, b)),
        !is_nan_bits(a) && !is_nan_bits(b) ==> (code_of(a) == code_of(b) <==> ieee_equal(a, b)),
        is_nan_bits(a) && !is_nan_bits(b) ==> code_of(b) < code_of(a),
        code_of(a) > 0,
{
}

/// A single keyframe at a specific time.
///
/// `time` is a time code: an integer that orders like the point in time it
/// stands for, so that keyframes are sorted and searched by it.
pub struct Keyframe<T> {
    pub time: u32,
    pub value: T,
    pub interpolation: Interpolation,
}

/// Where a sample time falls among the keyframes of a channel.
#[derive(Clone, Copy, Debug, PartialEq, Eq, Structural)]
pub enum SamplePoint {
    /// No keyframes: no value.
    Empty,
    /// The value of keyframe `.0`, held.
    Hold(usize),
    /// Between keyframe `.0` and the next: their values are interpolated.
    Segment(usize),
}

/// The time codes are in non-decreasing order.
pub open spec fn sorted(keys: Seq<u32>) -> bool {
    forall|i: int, j: int| 0 <= i <= j < keys.len() ==> keys[i] <= keys[j]
}

/// `t` lies in the span from keyframe `i` to keyframe `i + 1`.
pub open spec fn in_segment(keys: Seq<u32>, t: u32, i: int) -> bool {
    keys[i] <= t <= keys[i + 1]
}

/// The first span, from the `i`-th on, that contains `t`.
pub open spec fn first_segment_from(keys: Seq<u32>, t: u32, i: int) -> Option<int>
    decreases keys.len() - i,
{
    if i < 0 || i + 1 >= keys.len() {
        None
    } else if in_segment(keys, t, i) {
        Some(i)
    } else {
        first_segment_from(keys, t, i + 1)
    }
}

/// Where time `t` falls: nothing for no keyframes; the only keyframe; the
/// first one at or before it; the last one at or after it; otherwise the
/// first span that contains it (or, should none, the last keyframe).
pub open spec fn sample_point(keys: Seq<u32>, t: u32) -> SamplePoint {
    if keys.len() == 0 {
        SamplePoint::Empty
    } else if keys.len() == 1 || t <= keys[0] {
        SamplePoint::Hold(0)
    } else if t >= keys.last() {
        SamplePoint::Hold((keys.len() - 1) as usize)
    } else {
        match first_segment_from(keys, t, 0) {
            Some(i) => SamplePoint::Segment(i as usize),
            None => SamplePoint::Hold((keys.len() - 1) as usize),
        }
    }
}

/// A channel of keyframes for a single property, sorted by time.
pub struct Channel<T> {
    keyframes: Vec<Keyframe<T>>,
}

impl<T> Channel<T> {
    /// The keyframes, in order.
    pub closed spec fn frames(&self) -> Seq<Keyframe<T>> {
        self.keyframes@
    }

    /// The time codes of the keyframes, in order.
    pub open spec fn keys(&self) -> Seq<u32> {
        self.frames().map_values(|k: Keyframe<T>| k.time)
    }

    /// Keyframes are kept in time order.
    pub open spec fn wf(&self) -> bool {
        sorted(self.keys())
    }

    /// No keyframes.
    pub fn new() -> (r: Self)
        ensures
            r.wf(),
            r.frames().len() == 0,
    {
        let r = Channel { keyframes: Vec::new() };
        assert(r.keys() =~= Seq::<u32>::empty());
        r
    }

    /// Inserts a keyframe at its place in time order: after every keyframe
    /// that is earlier, before every one that is later (among keyframes at
    /// the same time, the new one goes first).
    pub fn add_keyframe(&mut self, time: u32, value: T, interpolation: Interpolation)
        requires
            old(self).wf(),
        ensures
            final(self).wf(),
            exists|p: int|
                0 <= p <= old(self).frames().len() && final(self).frames() == old(self).frames().insert(
                    p,
                    Keyframe { time, value, interpolation },
                ) && (forall|j: int| 0 <= j < p ==> #[trigger] old(self).keys()[j] < time) && (forall|
                    j: int,
                |
                    p <= j < old(self).frames().len() ==> time <= #[trigger] old(self).keys()[j]),
    {
        let ghost keys = self.keys();
        let n: usize = self.keyframes.len();
        let mut lo: usize = 0;
        let mut hi: usize = n;
        while lo < hi
            invariant
                lo <= hi <= n,
                n == self.keyframes@.len(),
                keys == self.keys(),
                sorted(keys),
                forall|j: int| 0 <= j < lo ==> #[trigger] keys[j] < time,
                forall|j: int| hi <= j < n ==> time <= #[trigger] keys[j],
            decreases hi - lo,
        {
            let mid: usize = lo + (hi - lo) / 2;
            assert(keys[mid as int] == self.keyframes@[mid as int].time);
            if self.keyframes[mid].time < time {
                lo = mid + 1;
            } else {
                hi = mid;
            }
        }
        let kf = Keyframe { time, value, interpolation };
        let ghost before = self.keyframes@;
        self.keyframes.insert(lo, kf);
        assert(self.keyframes@ == before.insert(lo as int, kf));
        proof {
            let nk = self.keys();
            assert(nk =~= keys.insert(lo as int, time));
            assert forall|i: int, j: int| 0 <= i <= j < nk.len() implies nk[i] <= nk[j] by {
                if i < lo && j < lo {
                } else if i < lo && j == lo {
                    assert(keys[i] < time);
                } else if i < lo && j > lo {
                    assert(keys[i] < time && time <= keys[j - 1]);
                } else if i == lo && j > lo {
                    assert(time <= keys[j - 1]);
                } else if i > lo {
                    assert(nk[i] == keys[i - 1] && nk[j] == keys[j - 1]);
                }
            }
        }
    }

    /// Whether the channel has no keyframes.
    pub fn is_empty(&self) -> (r: bool)
        ensures
            r == (self.frames().len() == 0),
    {
        self.keyframes.len() == 0
    }

    /// The number of keyframes.
    pub fn len(&self) -> (r: usize)
        ensures
            r == self.frames().len(),
    {
        self.keyframes.len()
    }

    /// The keyframe at `index` in time order.
    pub fn keyframe(&self, index: usize) -> (r: &Keyframe<T>)
        requires
            index < self.frames().len(),
        ensures
            *r == self.frames()[index as int],
    {
        &self.keyframes[index]
    }

    /// The time codes of the first and the last keyframe, if any.
    pub fn time_span(&self) -> (r: Option<(u32, u32)>)
        ensures
            self.frames().len() == 0 ==> r is None,
            self.frames().len() > 0 ==> r == Some((self.keys()[0], self.keys().last())),
    {
        if self.keyframes.len() == 0 {
            None
        } else {
            let last: usize = self.keyframes.len() - 1;
            Some((self.keyframes[0].time, self.keyframes[last].time))
        }
    }

    /// Where time `t` falls among the keyframes (see `sample_point`).
    pub fn locate(&self, t: u32) -> (r: SamplePoint)
        ensures
            r == sample_point(self.keys(), t),
    {
        let ghost keys = self.keys();
        let n: usize = self.keyframes.len();
        if n == 0 {
            return SamplePoint::Empty;
        }
        if n == 1 || t <= self.keyframes[0].time {
            return SamplePoint::Hold(0);
        }
        assert(keys.last() == keys[n - 1]);
        if t >= self.keyframes[n - 1].time {
            return SamplePoint::Hold(n - 1);
        }
        let mut i: usize = 0;
        while i + 1 < n
            invariant
                i + 1 <= n,
                n == keys.len(),
                n >= 2,
                keys == self.keys(),
                keys[0] < t,
                t < keys.last(),
                first_segment_from(keys, t, 0) == first_segment_from(keys, t, i as int),
            decreases n - i,
        {
            assert(keys[i as int] == self.keyframes@[i as int].time);
            assert(keys[i + 1] == self.keyframes@[i + 1].time);
            if self.keyframes[i].time <= t && t <= self.keyframes[i + 1].time {
                return SamplePoint::Segment(i);
            }
            i = i + 1;
        }
        SamplePoint::Hold(n - 1)
    }
}

impl<T> Default for Channel<T> {
    fn default() -> (r: Self)
        ensures
            r.wf(),
            r.frames().len() == 0,
    {
        Self::new()
    }
}

/// In a sorted channel a time strictly between the first and the last
/// keyframe always falls in some span: the last keyframe is never the
/// fallback there.
pub proof fn lemma_sample_finds_segment(keys: Seq<u32>, t: u32)
    requires
        sorted(keys),
        2 <= keys.len() <= usize::MAX,
        keys[0] < t < keys.last(),
    ensures
        sample_point(keys, t) matches SamplePoint::Segment(i) && i + 1 < keys.len() && in_segment(
            keys,
            t,
            i as int,
        ),
{
    lemma_first_segment_found(keys, t, 0);
}

proof fn lemma_first_segment_found(keys: Seq<u32>, t: u32, i: int)
    requires
        sorted(keys),
        0 <= i,
        i + 1 < keys.len(),
        keys[i] <= t < keys.last(),
    ensures
        first_segment_from(keys, t, i) matches Some(k) && i <= k && k + 1 < keys.len() && in_segment(
            keys,
            t,
            k,
        ),
    decreases keys.len() - i,
{
    if !in_segment(keys, t, i) {
        assert(t > keys[i + 1]);
        lemma_first_segment_found(keys, t, i + 1);
    }
}

/// Where a time falls among sorted keyframe times, case by case: nothing
/// without keyframes; the first keyframe when there is only one or the time
/// is at or before it; the last keyframe when the time is after the first
/// and at or after the last; otherwise the first span `i` (from keyframe `i`
/// to `i + 1`) whose ends enclose the time, no earlier span enclosing it.
pub proof fn lemma_sample_point_cases(keys: Seq<u32>, t: u32)
    requires
        sorted(keys),
        keys.len() <= usize::MAX,
    ensures
        (sample_point(keys, t) is Empty) <==> keys.len() == 0,
        keys.len() > 0 && (keys.len() == 1 || t <= keys[0]) ==> sample_point(keys, t) == SamplePoint::Hold(0),
        keys.len() > 1 && keys[0] < t && t >= keys[keys.len() - 1] ==> sample_point(keys, t)
            == SamplePoint::Hold((keys.len() - 1) as usize),
        keys.len() > 1 && keys[0] < t < keys[keys.len() - 1] ==> (sample_point(keys, t) matches SamplePoint::Segment(
            i,
        ) && {
            &&& i + 1 < keys.len()
            &&& keys[i as int] <= t <= keys[i + 1]
            &&& forall|j: int| 0 <= j < i ==> !(keys[j] <= t && t <= #[trigger] keys[j + 1])
        }),
{
    if keys.len() > 1 && keys[0] < t < keys[keys.len() - 1] {
        assert(keys.last() == keys[keys.len() - 1]);
        lemma_sample_finds_segment(keys, t);
        lemma_first_segment_found(keys, t, 0);
        lemma_first_segment_is_first(keys, t, 0);
        let k = first_segment_from(keys, t, 0)->0;
        assert(sample_point(keys, t) == SamplePoint::Segment(k as usize));
        assert(0 <= k < keys.len());
        assert(forall|j: int| 0 <= j < k ==> !(keys[j] <= t && t <= #[trigger] keys[j + 1]));
    }
}

proof fn lemma_first_segment_is_first(keys: Seq<u32>, t: u32, i: int)
    requires
        0 <= i,
    ensures
        first_segment_from(keys, t, i) matches Some(k) ==> forall|j: int|
            i <= j < k ==> !(keys[j] <= t && t <= #[trigger] keys[j + 1]),
    decreases keys.len() - i,
{
    if i + 1 < keys.len() && !in_segment(keys, t, i) {
        lemma_first_segment_is_first(keys, t, i + 1);
    }
}

/// A complete animation clip with position, rotation and scale channels.
pub struct Animation {
    pub name: String,
    pub position: Channel<Vec3>,
    pub rotation: Channel<Quat>,
    pub scale: Channel<Vec3>,
    pub looping: bool,
}

impl Animation {
    /// A clip named `name` with empty channels, not looping.
    pub fn new(name: &str) -> (r: Self)
        ensures
            r.name@ == name@,
            r.position.wf() && r.position.frames().len() == 0,
            r.rotation.wf() && r.rotation.frames().len() == 0,
            r.scale.wf() && r.scale.frames().len() == 0,
            !r.looping,
    {
        Animation {
            name: String::from_str(name),
            position: Channel::new(),
            rotation: Channel::new(),
            scale: Channel::new(),
            looping: false,
        }
    }
}

impl Default for Animation {
    fn default() -> (r: Self)
        ensures
            r.name@ == seq!['d', 'e', 'f', 'a', 'u', 'l', 't'],
            r.position.frames().len() == 0,
            r.rotation.frames().len() == 0,
            r.scale.frames().len() == 0,
            !r.looping,
    {
        proof {
            reveal_strlit("default");
        }
        Self::new("default")
    }
}

} // verus!
