//! The slider captcha: a picture cut into a grid of tiles that a sequence of
//! swaps has shuffled. Each candidate answer undoes a prefix of the swaps;
//! the client scores how well the tiles' edges meet under each candidate.

use crate::json::{field, field_str, field_str_or_empty, get_str, get_str_or_empty, Json};
use crate::outside::{base64_decode, base64_standard_decode, decode_rgb8, decoded_rgb8};
use crate::slider_image::RgbImage;
use crate::text::{
    append_chars, chars_of, eq_ignore_ascii_case, eq_ignore_ascii_case_bytes, parse_i64, parse_i64_chars, string_of,
    u64_to_decimal,
};
use vstd::prelude::*;

verus! {

/// Why a slider puzzle could not be read or scored.
#[derive(Debug, Clone)]
pub enum SliderError {
    /// The content response has no `response` object.
    InvalidContent,
    /// `getContent` answered with another status than "ok".
    Status(String),
    /// The response has no image.
    ImageMissing,
    /// The response has no steps.
    StepsMissing,
    /// A step is neither an integer nor a string holding one.
    InvalidNumber,
    /// The image is not valid base64.
    ImageEncoding,
    /// The image does not decode.
    ImageDecoding,
    /// Fewer than three steps.
    StepsTooShort,
    /// The grid size is invalid.
    InvalidSize(usize),
    /// The swaps are empty or unpaired.
    InvalidSwapPayload,
    /// The grid has this many tiles, which is none.
    InvalidTileCount(usize),
    /// The swaps have this odd length.
    InvalidSwapsLength(usize),
    /// A swap names a tile outside the grid.
    StepOutOfRange(usize, usize),
    /// The puzzle offers no candidate.
    NoCandidates,
}

/// A number in decimal.
fn usize_text(n: usize) -> (r: Vec<char>)
    ensures
        r@ == crate::text::decimal(n as int),
{
    u64_to_decimal(n as u64)
}

/// A fixed message followed by a number.
fn message_num(prefix: &str, n: usize) -> (r: String)
    ensures
        r@ == prefix@ + crate::text::decimal(n as int),
{
    let mut v = chars_of(prefix);
    let d = usize_text(n);
    append_chars(&mut v, d.as_slice());
    string_of(v.as_slice())
}

/// The message of a slider error.
pub open spec fn slider_error_text(e: SliderError) -> Seq<char> {
    match e {
        SliderError::InvalidContent => "invalid slider content response"@,
        SliderError::Status(s) => "slider getContent status: "@ + s@,
        SliderError::ImageMissing => "slider image missing"@,
        SliderError::StepsMissing => "slider steps missing"@,
        SliderError::InvalidNumber => "invalid numeric value"@,
        SliderError::ImageEncoding => "invalid slider image encoding"@,
        SliderError::ImageDecoding => "invalid slider image"@,
        SliderError::StepsTooShort => "slider steps payload too short"@,
        SliderError::InvalidSize(n) => "invalid slider size: "@ + crate::text::decimal(n as int),
        SliderError::InvalidSwapPayload => "invalid slider swap payload"@,
        SliderError::InvalidTileCount(n) => "invalid slider tile count: "@ + crate::text::decimal(n as int),
        SliderError::InvalidSwapsLength(n) => "invalid slider swaps length: "@ + crate::text::decimal(n as int),
        SliderError::StepOutOfRange(a, b) => "slider step out of range: "@ + crate::text::decimal(a as int) + ","@
            + crate::text::decimal(b as int),
        SliderError::NoCandidates => "slider has no candidates"@,
    }
}

impl SliderError {
    /// The error's message.
    pub fn to_string(&self) -> (s: String)
        ensures
            s@ == slider_error_text(*self),
    {
        match self {
            SliderError::InvalidContent => String::from_str("invalid slider content response"),
            SliderError::Status(st) => {
                let mut v = chars_of("slider getContent status: ");
                let t = chars_of(st.as_str());
                append_chars(&mut v, t.as_slice());
                string_of(v.as_slice())
            },
            SliderError::ImageMissing => String::from_str("slider image missing"),
            SliderError::StepsMissing => String::from_str("slider steps missing"),
            SliderError::InvalidNumber => String::from_str("invalid numeric value"),
            SliderError::ImageEncoding => String::from_str("invalid slider image encoding"),
            SliderError::ImageDecoding => String::from_str("invalid slider image"),
            SliderError::StepsTooShort => String::from_str("slider steps payload too short"),
            SliderError::InvalidSize(n) => message_num("invalid slider size: ", *n),
            SliderError::InvalidSwapPayload => String::from_str("invalid slider swap payload"),
            SliderError::InvalidTileCount(n) => message_num("invalid slider tile count: ", *n),
            SliderError::InvalidSwapsLength(n) => message_num("invalid slider swaps length: ", *n),
            SliderError::StepOutOfRange(a, b) => {
                let mut v = chars_of("slider step out of range: ");
                let x = usize_text(*a);
                append_chars(&mut v, x.as_slice());
                crate::text::push_str(&mut v, ",");
                let y = usize_text(*b);
                append_chars(&mut v, y.as_slice());
                string_of(v.as_slice())
            },
            SliderError::NoCandidates => String::from_str("slider has no candidates"),
        }
    }
}

/// The steps of a puzzle split into (grid size, swaps, attempts): the first
/// step is the grid size, which must not be 0; an odd number of remaining
/// steps ends with the number of attempts, where 0 (or no such step) means
/// 4; the swaps are what remains, which must be a non-empty even list.
pub open spec fn split_steps(steps: Seq<usize>) -> Result<(usize, Seq<usize>, usize), SliderError> {
    if steps.len() < 3 {
        Err(SliderError::StepsTooShort)
    } else if steps[0] == 0 {
        Err(SliderError::InvalidSize(0))
    } else {
        let tail = steps.skip(1);
        let swaps = if tail.len() % 2 != 0 { tail.drop_last() } else { tail };
        let a = if tail.len() % 2 != 0 { tail.last() } else { 4 };
        let attempts = if a == 0 { 4 } else { a };
        if swaps.len() == 0 || swaps.len() % 2 != 0 {
            Err(SliderError::InvalidSwapPayload)
        } else {
            Ok((steps[0], swaps, attempts))
        }
    }
}

/// Whether a result of `splitSliderStepsV2` is the one `split_steps` gives.
pub open spec fn split_result_is(
    r: Result<(usize, Vec<usize>, usize), SliderError>,
    s: Result<(usize, Seq<usize>, usize), SliderError>,
) -> bool {
    match s {
        Ok(t) => r matches Ok(x) && x.0 == t.0 && x.1@ == t.1 && x.2 == t.2,
        Err(SliderError::InvalidSize(n)) => r matches Err(SliderError::InvalidSize(m)) && m == n,
        Err(SliderError::StepsTooShort) => r matches Err(SliderError::StepsTooShort),
        Err(SliderError::InvalidSwapPayload) => r matches Err(SliderError::InvalidSwapPayload),
        Err(_) => false,
    }
}

/// Splits the steps of a puzzle into (grid size, swaps, attempts).
pub fn splitSliderStepsV2(steps: &[usize]) -> (r: Result<(usize, Vec<usize>, usize), SliderError>)
    ensures
        split_result_is(r, split_steps(steps@)),
        r matches Ok(x) ==> x.1@.len() > 0 && x.1@.len() % 2 == 0 && x.0 > 0 && x.2 > 0,
{
    if steps.len() < 3 {
        return Err(SliderError::StepsTooShort);
    }
    let size = steps[0];
    if size == 0 {
        return Err(SliderError::InvalidSize(size));
    }
    let mut tail: Vec<usize> = Vec::new();
    let mut i: usize = 1;
    while i < steps.len()
        invariant
            1 <= i <= steps@.len(),
            tail@ == steps@.subrange(1, i as int),
        decreases steps@.len() - i,
    {
        tail.push(steps[i]);
        assert(tail@ =~= steps@.subrange(1, i + 1));
        i = i + 1;
    }
    assert(tail@ =~= steps@.skip(1));
    let ghost t0 = tail@;
    let mut attempts: usize = 4;
    if tail.len() % 2 != 0 {
        attempts = tail[tail.len() - 1];
        tail.pop();
        assert(tail@ =~= t0.drop_last());
    }
    if attempts == 0 {
        attempts = 4;
    }
    if tail.len() == 0 || tail.len() % 2 != 0 {
        return Err(SliderError::InvalidSwapPayload);
    }
    Ok((size, tail, attempts))
}

/// The swaps of candidate `index`: the first `index` pairs (all of them when
/// there are fewer); none for candidate 0.
pub open spec fn active_swaps(swaps: Seq<usize>, index: int) -> Seq<usize> {
    if index == 0 {
        Seq::empty()
    } else if index * 2 < swaps.len() {
        swaps.take(index * 2)
    } else {
        swaps
    }
}

/// The swaps of candidate `index`.
pub fn activeSwapsForIndexV2(swaps: &[usize], index: usize) -> (r: Vec<usize>)
    requires
        index <= usize::MAX / 2,
    ensures
        r@ == active_swaps(swaps@, index as int),
{
    if index == 0 {
        return Vec::new();
    }
    let end = if index * 2 < swaps.len() { index * 2 } else { swaps.len() };
    let mut out: Vec<usize> = Vec::new();
    let mut i: usize = 0;
    while i < end
        invariant
            end <= swaps@.len(),
            i <= end,
            out@ == swaps@.take(i as int),
        decreases end - i,
    {
        out.push(swaps[i]);
        assert(out@ =~= swaps@.take(i + 1));
        i = i + 1;
    }
    assert(swaps@.take(swaps@.len() as int) =~= swaps@);
    out
}

/// `m` with positions `a` and `b` exchanged.
pub open spec fn swapped(m: Seq<usize>, a: int, b: int) -> Seq<usize> {
    m.update(a, m[b]).update(b, m[a])
}

/// The mapping after the first `k` swap pairs, starting from `m`.
pub open spec fn after_pairs(m: Seq<usize>, swaps: Seq<usize>, k: nat) -> Seq<usize>
    decreases k,
{
    if k == 0 {
        m
    } else {
        let prev = after_pairs(m, swaps, (k - 1) as nat);
        swapped(prev, swaps[2 * k - 2] as int, swaps[2 * k - 1] as int)
    }
}

/// The identity mapping of `n` tiles.
pub open spec fn identity(n: nat) -> Seq<usize> {
    Seq::new(n, |i: int| i as usize)
}

/// Whether the first `k` swap pairs stay inside `n` tiles.
pub open spec fn pairs_in_range(swaps: Seq<usize>, n: int, k: int) -> bool {
    forall|j: int| 0 <= j < 2 * k ==> #[trigger] swaps[j] < n
}

/// The index of the first swap pair leaving `n` tiles, at or after pair `k`.
pub open spec fn first_bad_pair(swaps: Seq<usize>, n: int, k: int) -> int
    decreases swaps.len() - 2 * k,
{
    if 2 * k + 1 >= swaps.len() {
        k
    } else if swaps[2 * k] >= n || swaps[2 * k + 1] >= n {
        k
    } else {
        first_bad_pair(swaps, n, k + 1)
    }
}

/// What applying swaps to a `grid_size` x `grid_size` grid gives: an error
/// for an empty grid, an odd number of swaps or (the first) pair outside the
/// grid; otherwise the identity with each pair exchanged in turn.
pub open spec fn apply_swaps(grid_size: int, swaps: Seq<usize>) -> Result<Seq<usize>, SliderError> {
    let n = grid_size * grid_size;
    if n == 0 {
        Err(SliderError::InvalidTileCount(0))
    } else if swaps.len() % 2 != 0 {
        Err(SliderError::InvalidSwapsLength(swaps.len() as usize))
    } else if !pairs_in_range(swaps, n, (swaps.len() / 2) as int) {
        let k = first_bad_pair(swaps, n, 0);
        Err(SliderError::StepOutOfRange(swaps[2 * k], swaps[2 * k + 1]))
    } else {
        Ok(after_pairs(identity(n as nat), swaps, (swaps.len() / 2) as nat))
    }
}

/// Whether `m` is a permutation of the tiles `0..n`: every tile appears
/// once.
pub open spec fn is_permutation(m: Seq<usize>, n: int) -> bool {
    &&& m.len() == n
    &&& forall|i: int| 0 <= i < n ==> #[trigger] m[i] < n
    &&& forall|i: int, j: int| 0 <= i < n && 0 <= j < n && i != j ==> #[trigger] m[i] != #[trigger] m[j]
}

/// Exchanging two positions of a permutation gives a permutation.
pub proof fn lemma_swapped_permutation(m: Seq<usize>, n: int, a: int, b: int)
    requires
        is_permutation(m, n),
        0 <= a < n,
        0 <= b < n,
    ensures
        is_permutation(swapped(m, a, b), n),
{
    let s = swapped(m, a, b);
    assert forall|i: int, j: int| 0 <= i < n && 0 <= j < n && i != j implies #[trigger] s[i] != #[trigger] s[j] by {
        let pi = if i == b { a } else if i == a { b } else { i };
        let pj = if j == b { a } else if j == a { b } else { j };
        assert(s[i] == m[pi]);
        assert(s[j] == m[pj]);
        assert(pi != pj);
    }
}

/// Whether a result of `applySliderSwapsV2` is the one `apply_swaps` gives.
pub open spec fn apply_result_is(r: Result<Vec<usize>, SliderError>, s: Result<Seq<usize>, SliderError>) -> bool {
    match s {
        Ok(m) => r matches Ok(v) && v@ == m,
        Err(SliderError::InvalidTileCount(n)) => r matches Err(SliderError::InvalidTileCount(k)) && k == n,
        Err(SliderError::InvalidSwapsLength(n)) => r matches Err(SliderError::InvalidSwapsLength(k)) && k == n,
        Err(SliderError::StepOutOfRange(a, b)) => r matches Err(SliderError::StepOutOfRange(x, y)) && x == a && y
            == b,
        Err(_) => false,
    }
}

/// Applies swaps to the identity mapping of a `grid_size` x `grid_size`
/// grid. Whatever it returns is a permutation of the tiles: the candidate's
/// arrangement reorders the tiles and loses none.
pub fn applySliderSwapsV2(grid_size: usize, swaps: &[usize]) -> (r: Result<Vec<usize>, SliderError>)
    requires
        grid_size * grid_size <= usize::MAX,
    ensures
        apply_result_is(r, apply_swaps(grid_size as int, swaps@)),
        r matches Ok(m) ==> is_permutation(m@, grid_size * grid_size),
{
    let tile_count = grid_size * grid_size;
    if tile_count == 0 {
        return Err(SliderError::InvalidTileCount(tile_count));
    }
    if swaps.len() % 2 != 0 {
        return Err(SliderError::InvalidSwapsLength(swaps.len()));
    }
    let ghost n = tile_count as int;
    let mut mapping: Vec<usize> = Vec::new();
    let mut t: usize = 0;
    while t < tile_count
        invariant
            t <= tile_count,
            mapping@ == identity(t as nat),
        decreases tile_count - t,
    {
        mapping.push(t);
        assert(mapping@ =~= identity((t + 1) as nat));
        t = t + 1;
    }
    assert(is_permutation(mapping@, n));
    let mut k: usize = 0;
    while k < swaps.len() / 2
        invariant
            n == tile_count as int,
            tile_count as int == grid_size as int * grid_size as int,
            n > 0,
            swaps@.len() % 2 == 0,
            k <= swaps@.len() / 2,
            pairs_in_range(swaps@, n, k as int),
            first_bad_pair(swaps@, n, 0) == first_bad_pair(swaps@, n, k as int),
            mapping@ == after_pairs(identity(n as nat), swaps@, k as nat),
            is_permutation(mapping@, n),
        decreases swaps@.len() / 2 - k,
    {
        let left = swaps[2 * k];
        let right = swaps[2 * k + 1];
        if left >= tile_count || right >= tile_count {
            proof {
                assert(2 * k + 1 < swaps@.len());
                assert(first_bad_pair(swaps@, n, k as int) == k);
                assert(!pairs_in_range(swaps@, n, (swaps@.len() / 2) as int)) by {
                    if left >= tile_count {
                        assert(swaps@[2 * k as int] >= n);
                    } else {
                        assert(swaps@[2 * k + 1] >= n);
                    }
                }
            }
            return Err(SliderError::StepOutOfRange(left, right));
        }
        let a = mapping[left];
        let b = mapping[right];
        proof {
            lemma_swapped_permutation(mapping@, n, left as int, right as int);
        }
        mapping.set(left, b);
        mapping.set(right, a);
        assert(mapping@ =~= swapped(after_pairs(identity(n as nat), swaps@, k as nat), left as int, right as int));
        k = k + 1;
    }
    Ok(mapping)
}

/// `i32::abs`, on values whose magnitude fits.
pub fn absIntV2(v: i32) -> (r: i32)
    requires
        v != i32::MIN,
    ensures
        r as int == if v < 0 { -(v as int) } else { v as int },
{
    if v < 0 {
        -v
    } else {
        v
    }
}


/// A slider puzzle: the shuffled picture, the grid size, the swaps and how
/// many answers may be tried.
#[derive(Debug, Clone)]
pub struct sliderPuzzleV2 {
    pub image: RgbImage,
    pub size: usize,
    pub swaps: Vec<usize>,
    pub attempts: usize,
}

/// The number a step denotes: an integer as an `i64`, or a string holding
/// one, reinterpreted as a `usize`; nothing for anything else.
pub open spec fn step_value(v: Json) -> Option<usize> {
    match v {
        Json::Number(n) => match n.as_i64 {
            Some(i) => Some(i as usize),
            None => None,
        },
        Json::String(s) => match parse_i64(s@) {
            Some(i) => Some(i as usize),
            None => None,
        },
        _ => None,
    }
}

/// The numbers of a list of steps, when every step denotes one.
pub open spec fn step_values(items: Seq<Json>) -> Option<Seq<usize>>
    decreases items.len(),
{
    if items.len() == 0 {
        Some(Seq::empty())
    } else {
        match (step_values(items.drop_last()), step_value(items.last())) {
            (Some(v), Some(x)) => Some(v.push(x)),
            _ => None,
        }
    }
}

/// The `getContent` response object, if there is one.
pub open spec fn content_of(raw: Json) -> Option<Json> {
    match field(raw, "response"@) {
        Some(r) => match r {
            Json::Object(_) => Some(r),
            _ => None,
        },
        None => None,
    }
}

/// A puzzle as (width, height, pixels, grid size, swaps, attempts).
pub type PuzzleView = (u32, u32, Seq<u8>, usize, Seq<usize>, usize);

/// A puzzle's view.
pub open spec fn puzzle_view(p: sliderPuzzleV2) -> PuzzleView {
    (p.image.width, p.image.height, p.image.data@, p.size, p.swaps@, p.attempts)
}

/// The puzzle a `getContent` response holds. In order: the response must be
/// an object, its status "ok" (ASCII case ignored), its image a string, its
/// steps an array of numbers; the steps must split; the image must be
/// base64 and decode.
pub open spec fn slider_puzzle(raw: Json) -> Result<PuzzleView, SliderError> {
    match content_of(raw) {
        None => Err(SliderError::InvalidContent),
        Some(resp) => {
            let status = field_str_or_empty(resp, "status"@);
            if !eq_ignore_ascii_case_bytes(vstd::utf8::encode_utf8(status), vstd::utf8::encode_utf8("ok"@)) {
                Err(SliderError::Status(arbitrary()))
            } else {
                match field_str(resp, "image"@) {
                    None => Err(SliderError::ImageMissing),
                    Some(image) => match field(resp, "steps"@) {
                        Some(Json::Array(items)) => match step_values(items@) {
                            None => Err(SliderError::InvalidNumber),
                            Some(steps) => match split_steps(steps) {
                                Err(e) => Err(e),
                                Ok(t) => match base64_standard_decode(image) {
                                    None => Err(SliderError::ImageEncoding),
                                    Some(bytes) => match decoded_rgb8(bytes) {
                                        None => Err(SliderError::ImageDecoding),
                                        Some(d) => Ok((d.0, d.1, d.2, t.0, t.1, t.2)),
                                    },
                                },
                            },
                        },
                        _ => Err(SliderError::StepsMissing),
                    },
                }
            }
        },
    }
}

/// Whether a slider error is the expected one; a status error carries the
/// status text.
pub open spec fn slider_error_is(f: SliderError, e: SliderError, status: Seq<char>) -> bool {
    match e {
        SliderError::Status(_) => (f matches SliderError::Status(t) && t@ == status),
        _ => f == e,
    }
}

/// The numbers of a list of steps.
fn steps_of(items: &Vec<Json>) -> (r: Option<Vec<usize>>)
    ensures
        match step_values(items@) {
            Some(v) => r matches Some(x) && x@ == v,
            None => r is None,
        },
{
    let mut out: Vec<usize> = Vec::new();
    let mut i: usize = 0;
    assert(items@.take(0) =~= Seq::<Json>::empty());
    while i < items.len()
        invariant
            i <= items@.len(),
            step_values(items@.take(i as int)) == Some(out@),
        decreases items@.len() - i,
    {
        assert(items@.take(i + 1).drop_last() =~= items@.take(i as int));
        assert(items@.take(i + 1).last() == items@[i as int]);
        let v = match &items[i] {
            Json::Number(n) => match n.as_i64 {
                Some(x) => Some(x as usize),
                None => None,
            },
            Json::String(s) => {
                let c = chars_of(s.as_str());
                match parse_i64_chars(c.as_slice()) {
                    Some(x) => Some(x as usize),
                    None => None,
                }
            },
            _ => None,
        };
        match v {
            Some(x) => out.push(x),
            None => {
                proof {
                    lemma_step_values_none(items@, (i + 1) as nat);
                }
                return None;
            },
        }
        i = i + 1;
    }
    assert(items@.take(items@.len() as int) =~= items@);
    Some(out)
}

/// A step that denotes no number spoils every longer prefix.
proof fn lemma_step_values_none(items: Seq<Json>, k: nat)
    requires
        k <= items.len(),
        step_values(items.take(k as int)) is None,
    ensures
        step_values(items) is None,
    decreases items.len() - k,
{
    if k < items.len() {
        assert(items.take(k + 1 as int).drop_last() =~= items.take(k as int));
        lemma_step_values_none(items, k + 1);
    } else {
        assert(items.take(k as int) =~= items);
    }
}

/// Reads a slider puzzle from a `getContent` response.
pub fn parseSliderPuzzleV2(raw: &Json) -> (r: Result<sliderPuzzleV2, SliderError>)
    ensures
        match slider_puzzle(*raw) {
            Ok(p) => r matches Ok(x) && puzzle_view(x) == p && x.image.wf(),
            Err(e) => r matches Err(f) && slider_error_is(
                f,
                e,
                match content_of(*raw) {
                    Some(resp) => field_str_or_empty(resp, "status"@),
                    None => Seq::empty(),
                },
            ),
        },
{
    let resp = match raw.get("response") {
        Some(x) => x,
        None => return Err(SliderError::InvalidContent),
    };
    match resp {
        Json::Object(_) => {},
        _ => return Err(SliderError::InvalidContent),
    }
    let status = get_str_or_empty(resp, "status");
    if !eq_ignore_ascii_case(status.as_str(), "ok") {
        return Err(SliderError::Status(status));
    }
    let raw_image = match get_str(resp, "image") {
        Some(s) => s,
        None => return Err(SliderError::ImageMissing),
    };
    let raw_steps = match resp.get("steps") {
        Some(Json::Array(a)) => a,
        _ => return Err(SliderError::StepsMissing),
    };
    let steps = match steps_of(raw_steps) {
        Some(s) => s,
        None => return Err(SliderError::InvalidNumber),
    };
    let (size, swaps, attempts) = match splitSliderStepsV2(steps.as_slice()) {
        Ok(t) => t,
        Err(e) => return Err(e),
    };
    let data = match base64_decode(raw_image.as_str()) {
        Some(d) => d,
        None => return Err(SliderError::ImageEncoding),
    };
    let (width, height, pixels) = match decode_rgb8(data.as_slice()) {
        Some(t) => t,
        None => return Err(SliderError::ImageDecoding),
    };
    Ok(sliderPuzzleV2 { image: RgbImage { width, height, data: pixels }, size, swaps, attempts })
}

} // verus!
