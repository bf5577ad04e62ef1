use vstd::prelude::*;

verus! {

/// The sequence of `n` copies of `fill`.
pub open spec fn filled<T>(n: nat, fill: T) -> Seq<T> {
    Seq::new(n, |i: int| fill)
}

/// `s` cut down or extended with `fill` to length `n`, the way `Vec::resize` does.
pub open spec fn resized<T>(s: Seq<T>, n: nat, fill: T) -> Seq<T> {
    if n <= s.len() {
        s.take(n as int)
    } else {
        s + filled((n - s.len()) as nat, fill)
    }
}

/// Builds a vector of `n` copies of `fill`.
pub fn filled_vec<T: Copy>(n: usize, fill: T) -> (v: Vec<T>)
    ensures
        v@ == filled(n as nat, fill),
{
    let mut v: Vec<T> = Vec::new();
    let mut i: usize = 0;
    while i < n
        invariant
            i <= n,
            v@ == filled(i as nat, fill),
        decreases n - i,
    {
        v.push(fill);
        i = i + 1;
    }
    v
}

/// Overwrites every element of `v` with `fill`.
pub fn fill_all<T: Copy>(v: &mut Vec<T>, fill: T)
    ensures
        final(v)@ == filled(old(v)@.len(), fill),
{
    let n = v.len();
    let mut i: usize = 0;
    while i < n
        invariant
            i <= n,
            n == v@.len(),
            v@.len() == old(v)@.len(),
            forall|k: int| 0 <= k < i ==> v@[k] == fill,
        decreases n - i,
    {
        v.set(i, fill);
        i = i + 1;
    }
    assert(v@ =~= filled(old(v)@.len(), fill));
}

/// Cuts `v` down, or extends it with copies of `fill`, to length `n`.
pub fn resize_with<T: Copy>(v: &mut Vec<T>, n: usize, fill: T)
    ensures
        final(v)@ == resized(old(v)@, n as nat, fill),
{
    if n <= v.len() {
        v.truncate(n);
    } else {
        let ghost start = v@;
        while v.len() < n
            invariant
                start.len() <= v@.len() <= n,
                v@ == start + filled((v@.len() - start.len()) as nat, fill),
            decreases n - v@.len(),
        {
            v.push(fill);
            assert(v@ =~= start + filled((v@.len() - start.len()) as nat, fill));
        }
    }
}

/// The position of cell `(x, y)` in a row-major grid `width` cells wide.
pub open spec fn cell_index(width: nat, x: int, y: int) -> int {
    y * width + x
}

/// A cell inside a `width` by `height` grid lies inside its row-major storage.
pub proof fn lemma_cell_in_grid(width: nat, height: nat, x: int, y: int)
    requires
        0 <= x < width,
        0 <= y < height,
    ensures
        0 <= cell_index(width, x, y) < width * height,
        cell_index(width, x, y) + 1 <= width * height,
{
    assert(0 <= y * width) by (nonlinear_arith)
        requires 0 <= y, 0 <= width;
    assert(y * width + width <= height * width) by (nonlinear_arith)
        requires 0 <= y < height, 0 <= width;
    assert(height * width == width * height) by (nonlinear_arith);
}

/// Distinct cells of a grid occupy distinct positions of its storage.
pub proof fn lemma_cell_index_injective(width: nat, x1: int, y1: int, x2: int, y2: int)
    requires
        0 <= x1 < width,
        0 <= x2 < width,
        0 <= y1,
        0 <= y2,
        cell_index(width, x1, y1) == cell_index(width, x2, y2),
    ensures
        x1 == x2,
        y1 == y2,
{
    if y1 < y2 {
        assert(y1 * width + width <= y2 * width) by (nonlinear_arith)
            requires y1 < y2, 0 <= width;
    } else if y2 < y1 {
        assert(y2 * width + width <= y1 * width) by (nonlinear_arith)
            requires y2 < y1, 0 <= width;
    }
}

/// Where `(x, y)` lands in a `width` by `height` row-major grid when both
/// coordinates wrap around.
pub open spec fn wrapped_cell(width: nat, height: nat, x: int, y: int) -> int {
    cell_index(width, x % (width as int), y % (height as int))
}

/// The storage position of `(x, y)` in a `width` by `height` grid, both
/// coordinates wrapping around.
pub fn wrapped_index(width: usize, height: usize, x: usize, y: usize) -> (i: usize)
    requires
        width > 0,
        height > 0,
        width * height <= usize::MAX,
    ensures
        i == wrapped_cell(width as nat, height as nat, x as int, y as int),
        i < width * height,
{
    let cx: usize = x % width;
    let cy: usize = y % height;
    proof {
        lemma_cell_in_grid(width as nat, height as nat, cx as int, cy as int);
    }
    cy * width + cx
}

/// A `String` holding the given chars, in order.
///
/// Trusted: calls std's `FromIterator<char>` for `String`, which appends
/// each char in turn; the contract claims that the string's chars are
/// exactly the given ones.
#[verifier::external_body]
pub(crate) fn string_from_chars(chars: &[char]) -> (s: String)
    ensures
        s@ == chars@,
{
    chars.iter().collect()
}

} // verus!
