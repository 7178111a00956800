//! Decoded images: what a first frame is, what is kept, and what is decoded next.
use vstd::prelude::*;

use crate::paths::{copy_bytes, place, same_path, Place};
use crate::text::same_text;

pub mod scheduler;

verus! {

/// Longest edge at which a vector image is rendered while zooming; bounds memory
/// for extreme zoom levels.
pub const SVG_RENDER_MAX: u32 = 4096;

/// What a decoded image is.
#[derive(Debug, Clone, Copy, PartialEq, Eq, Structural)]
pub enum DecodedKind {
    /// One picture.
    Static,
    /// Frames to be played one after another.
    Animated,
    /// A document that is rendered again at each zoom level.
    Svg,
}

/// Whether a media type is that of a vector image.
pub open spec fn is_svg_type(mime: Seq<char>) -> bool {
    mime == "image/svg+xml"@ || mime == "image/svg+xml-compressed"@
}

/// What an image is, by its media type and whether its first frame has a delay.
pub fn decoded_kind(mime: &str, has_delay: bool) -> (result: DecodedKind)
    ensures
        result == (if is_svg_type(mime@) {
            DecodedKind::Svg
        } else if has_delay {
            DecodedKind::Animated
        } else {
            DecodedKind::Static
        }),
{
    if same_text(mime, "image/svg+xml") || same_text(mime, "image/svg+xml-compressed") {
        DecodedKind::Svg
    } else if has_delay {
        DecodedKind::Animated
    } else {
        DecodedKind::Static
    }
}

/// Where a decode failed.
#[derive(Debug, Clone, Copy, PartialEq, Eq, Structural)]
pub enum DecodeError {
    Load,
    FirstFrame,
}

impl DecodeError {
    /// What to say of a failed decode, given what its cause says.
    pub fn describe(self, source: &str) -> (result: String)
        ensures
            result@ == match self {
                DecodeError::Load => "image loader failed: "@ + source@,
                DecodeError::FirstFrame => "could not decode first frame: "@ + source@,
            },
    {
        let mut result = match self {
            DecodeError::Load => "image loader failed: ".to_owned(),
            DecodeError::FirstFrame => "could not decode first frame: ".to_owned(),
        };
        result.append(source);
        result
    }
}

/// The size that is charged for a frame: four bytes for each pixel, or the
/// largest size where the dimensions are invalid or the product does not fit.
pub open spec fn frame_size(width: i32, height: i32) -> int {
    if width < 0 || height < 0 || width * height * 4 > usize::MAX {
        usize::MAX as int
    } else {
        width * height * 4
    }
}

/// Upper-bound resident size of a decoded frame. An invalid dimension never
/// wraps into a small charge.
pub fn frame_bytes(width: i32, height: i32) -> (result: usize)
    ensures
        result as int == frame_size(width, height),
{
    if width < 0 || height < 0 {
        return usize::MAX;
    }
    let w: u128 = width as u128;
    let h: u128 = height as u128;
    assert(w * h <= 0x7fff_ffff * 0x7fff_ffff) by (nonlinear_arith)
        requires
            w <= 0x7fff_ffff,
            h <= 0x7fff_ffff,
    ;
    assert(0 <= width * height) by (nonlinear_arith)
        requires
            width >= 0,
            height >= 0,
    ;
    let bytes: u128 = w * h * 4;
    if bytes > usize::MAX as u128 {
        usize::MAX
    } else {
        bytes as usize
    }
}

struct Slot<D> {
    path: Vec<u8>,
    decoded: D,
    mime: String,
    bytes: usize,
}

/// A kept image as a value.
#[verifier::ext_equal]
pub struct Frame<D> {
    pub path: Seq<u8>,
    pub decoded: D,
    pub mime: Seq<char>,
    pub bytes: int,
}

impl<D> View for Slot<D> {
    type V = Frame<D>;

    closed spec fn view(&self) -> Frame<D> {
        Frame {
            path: self.path@,
            decoded: self.decoded,
            mime: self.mime@,
            bytes: self.bytes as int,
        }
    }
}

spec fn frames_of<D>(list: Seq<Slot<D>>) -> Seq<Frame<D>> {
    Seq::new(list.len(), |i: int| list[i]@)
}

/// Tiny cache keyed by path, most recently used first: current image plus
/// pre-decoded neighbors. Bounded twice, by entry count and by estimated decoded
/// bytes, so that a folder of huge photos cannot triple its memory the way it
/// would with a count-only cap.
///
/// The image on screen is pinned. It is resident anyway, so evicting it frees
/// nothing: it is never evicted and does not count against the budget, which
/// therefore bounds only the extra memory spent on neighbors.
pub struct Cache<D> {
    cap: usize,
    budget_bytes: usize,
    entries: Vec<Slot<D>>,
    pinned: Option<Vec<u8>>,
}

/// The cache as a value.
#[verifier::ext_equal]
pub struct Store<D> {
    pub cap: int,
    pub budget: int,
    pub frames: Seq<Frame<D>>,
    pub pinned: Option<Place>,
}

impl<D> View for Cache<D> {
    type V = Store<D>;

    closed spec fn view(&self) -> Store<D> {
        Store {
            cap: self.cap as int,
            budget: self.budget_bytes as int,
            frames: frames_of(self.entries@),
            pinned: match self.pinned {
                Some(path) => Some(place(path@)),
                None => None,
            },
        }
    }
}

/// The position of the first frame at a place, or the number of frames.
pub open spec fn frame_at<D>(frames: Seq<Frame<D>>, at: Place) -> int
    decreases frames.len(),
{
    if frames.len() == 0 || place(frames[0].path) == at {
        0
    } else {
        1 + frame_at(frames.skip(1), at)
    }
}

proof fn frame_at_bounds<D>(frames: Seq<Frame<D>>, at: Place)
    ensures
        0 <= frame_at(frames, at) <= frames.len(),
        forall|i: int| 0 <= i < frame_at(frames, at) ==> place((#[trigger] frames[i]).path) != at,
        frame_at(frames, at) < frames.len() ==> place(frames[frame_at(frames, at)].path) == at,
    decreases frames.len(),
{
    if frames.len() > 0 && place(frames[0].path) != at {
        let rest = frames.skip(1);
        frame_at_bounds(rest, at);
        assert forall|i: int| 0 <= i < frame_at(frames, at) implies place(
            (#[trigger] frames[i]).path,
        ) != at by {
            if i > 0 {
                assert(rest[i - 1] == frames[i]);
            }
        }
        if frame_at(frames, at) < frames.len() {
            assert(rest[frame_at(rest, at)] == frames[frame_at(frames, at)]);
        }
    }
}

/// The frames without the one at a place.
pub open spec fn frames_without<D>(frames: Seq<Frame<D>>, at: Place) -> Seq<Frame<D>> {
    if frame_at(frames, at) < frames.len() {
        frames.remove(frame_at(frames, at))
    } else {
        frames
    }
}

pub open spec fn is_pinned<D>(frame: Frame<D>, pinned: Option<Place>) -> bool {
    pinned == Some(place(frame.path))
}

/// The position of the last frame that is not pinned, or -1.
pub open spec fn last_unpinned<D>(frames: Seq<Frame<D>>, pinned: Option<Place>) -> int
    decreases frames.len(),
{
    if frames.len() == 0 {
        -1
    } else if !is_pinned(frames.last(), pinned) {
        frames.len() - 1
    } else {
        last_unpinned(frames.drop_last(), pinned)
    }
}

/// Every frame behind the last that is not pinned is pinned.
pub proof fn last_unpinned_bounds<D>(frames: Seq<Frame<D>>, pinned: Option<Place>)
    ensures
        -1 <= last_unpinned(frames, pinned) < frames.len(),
        last_unpinned(frames, pinned) >= 0 ==> !is_pinned(
            frames[last_unpinned(frames, pinned)],
            pinned,
        ),
        forall|i: int|
            last_unpinned(frames, pinned) < i < frames.len() ==> is_pinned(
                #[trigger] frames[i],
                pinned,
            ),
    decreases frames.len(),
{
    if frames.len() > 0 && is_pinned(frames.last(), pinned) {
        let shorter = frames.drop_last();
        last_unpinned_bounds(shorter, pinned);
        assert forall|i: int|
            last_unpinned(frames, pinned) < i < frames.len() implies is_pinned(
            #[trigger] frames[i],
            pinned,
        ) by {
            if i < shorter.len() {
                assert(shorter[i] == frames[i]);
            }
        }
    }
}

/// The bytes of the frames that are not pinned.
pub open spec fn unpinned_bytes<D>(frames: Seq<Frame<D>>, pinned: Option<Place>) -> int
    decreases frames.len(),
{
    if frames.len() == 0 {
        0
    } else {
        unpinned_bytes(frames.drop_last(), pinned) + if is_pinned(frames.last(), pinned) {
            0
        } else {
            frames.last().bytes
        }
    }
}

/// Evicts the oldest frames that are not pinned until the count fits. The newest
/// frame stays unless no frame at all is to be kept.
pub open spec fn counted<D>(frames: Seq<Frame<D>>, pinned: Option<Place>, cap: int) -> Seq<Frame<D>>
    decreases frames.len(),
{
    let at = last_unpinned(frames, pinned);
    if frames.len() > cap && (at > 0 || (at == 0 && cap == 0)) {
        proof {
            last_unpinned_bounds(frames, pinned);
        }
        counted(frames.remove(at), pinned, cap)
    } else {
        frames
    }
}

/// Evicts the oldest frames that are not pinned until the bytes fit; the newest
/// frame always stays.
pub open spec fn budgeted<D>(
    frames: Seq<Frame<D>>,
    pinned: Option<Place>,
    budget: int,
) -> Seq<Frame<D>>
    decreases frames.len(),
{
    let at = last_unpinned(frames, pinned);
    if unpinned_bytes(frames, pinned) > budget && at > 0 {
        proof {
            last_unpinned_bounds(frames, pinned);
        }
        budgeted(frames.remove(at), pinned, budget)
    } else {
        frames
    }
}

pub open spec fn frames_distinct<D>(frames: Seq<Frame<D>>) -> bool {
    forall|i: int, j: int|
        0 <= i < j < frames.len() ==> place((#[trigger] frames[i]).path) != place(
            (#[trigger] frames[j]).path,
        )
}

impl<D> Store<D> {
    /// No place is kept twice, and sizes are no less than nothing.
    pub open spec fn wf(self) -> bool {
        &&& 0 <= self.cap
        &&& frames_distinct(self.frames)
        &&& forall|i: int| 0 <= i < self.frames.len() ==> 0 <= (#[trigger] self.frames[i]).bytes
    }

    pub open spec fn contains(self, path: Seq<u8>) -> bool {
        frame_at(self.frames, place(path)) < self.frames.len()
    }

    pub open spec fn frame(self, path: Seq<u8>) -> Frame<D> {
        self.frames[frame_at(self.frames, place(path))]
    }

    pub open spec fn touched(self, path: Seq<u8>) -> Store<D> {
        if self.contains(path) {
            Store {
                frames: seq![self.frame(path)] + frames_without(self.frames, place(path)),
                ..self
            }
        } else {
            self
        }
    }

    pub open spec fn with(self, frame: Frame<D>) -> Store<D> {
        let all = seq![frame] + frames_without(self.frames, place(frame.path));
        Store {
            frames: budgeted(counted(all, self.pinned, self.cap), self.pinned, self.budget),
            ..self
        }
    }

    pub open spec fn without(self, path: Seq<u8>) -> Store<D> {
        Store { frames: frames_without(self.frames, place(path)), ..self }
    }
}

proof fn removal_keeps_frames_distinct<D>(frames: Seq<Frame<D>>, at: int)
    requires
        frames_distinct(frames),
        0 <= at < frames.len(),
    ensures
        frames_distinct(frames.remove(at)),
        forall|i: int|
            0 <= i < frames.len() - 1 ==> #[trigger] frames.remove(at)[i] == frames[if i < at {
                i
            } else {
                i + 1
            }] && place(frames.remove(at)[i].path) != place(frames[at].path),
{
    let rest = frames.remove(at);
    assert forall|i: int| 0 <= i < rest.len() implies #[trigger] rest[i] == frames[if i < at {
        i
    } else {
        i + 1
    }] && place(rest[i].path) != place(frames[at].path) by {
        let a = if i < at { i } else { i + 1 };
        if a < at {
            assert(place(frames[a].path) != place(frames[at].path));
        } else {
            assert(place(frames[at].path) != place(frames[a].path));
        }
    }
    assert forall|i: int, j: int| 0 <= i < j < rest.len() implies place((#[trigger] rest[i]).path)
        != place((#[trigger] rest[j]).path) by {
        let a = if i < at { i } else { i + 1 };
        let b = if j < at { j } else { j + 1 };
        assert(place(frames[a].path) != place(frames[b].path));
    }
}

/// `after` came from `before` by evicting unpinned frames, other than the newest
/// where that is to stay.
spec fn evicted_soundly<D>(
    before: Seq<Frame<D>>,
    after: Seq<Frame<D>>,
    pinned: Option<Place>,
    newest_stays: bool,
) -> bool {
    &&& frames_distinct(after)
    &&& after.len() <= before.len()
    &&& newest_stays && before.len() > 0 ==> after.len() > 0 && after[0] == before[0]
    &&& forall|i: int|
        0 <= i < after.len() ==> before.contains(#[trigger] after[i])
    &&& forall|i: int|
        0 <= i < before.len() && is_pinned(#[trigger] before[i], pinned) ==> after.contains(
            before[i],
        )
}

proof fn one_eviction<D>(frames: Seq<Frame<D>>, pinned: Option<Place>, newest_stays: bool)
    requires
        frames_distinct(frames),
        last_unpinned(frames, pinned) > 0 || (last_unpinned(frames, pinned) == 0
            && !newest_stays),
    ensures
        evicted_soundly(
            frames,
            frames.remove(last_unpinned(frames, pinned)),
            pinned,
            newest_stays,
        ),
{
    let at = last_unpinned(frames, pinned);
    last_unpinned_bounds(frames, pinned);
    removal_keeps_frames_distinct(frames, at);
    let rest = frames.remove(at);
    assert forall|i: int| 0 <= i < rest.len() implies frames.contains(#[trigger] rest[i]) by {
        let a = if i < at { i } else { i + 1 };
        assert(rest[i] == frames[a]);
    }
    assert forall|i: int|
        0 <= i < frames.len() && is_pinned(#[trigger] frames[i], pinned) implies rest.contains(
        frames[i],
    ) by {
        let a = if i < at { i } else { i - 1 };
        assert(rest[a] == frames[i]);
    }
}

proof fn evictions_compose<D>(
    first: Seq<Frame<D>>,
    second: Seq<Frame<D>>,
    third: Seq<Frame<D>>,
    pinned: Option<Place>,
    newest_stays: bool,
)
    requires
        evicted_soundly(first, second, pinned, newest_stays),
        evicted_soundly(second, third, pinned, newest_stays),
    ensures
        evicted_soundly(first, third, pinned, newest_stays),
{
    assert forall|i: int| 0 <= i < third.len() implies first.contains(#[trigger] third[i]) by {
        assert(second.contains(third[i]));
        let k = choose|k: int| 0 <= k < second.len() && second[k] == third[i];
        assert(first.contains(second[k]));
    }
    assert forall|i: int|
        0 <= i < first.len() && is_pinned(#[trigger] first[i], pinned) implies third.contains(
        first[i],
    ) by {
        assert(second.contains(first[i]));
        let k = choose|k: int| 0 <= k < second.len() && second[k] == first[i];
        assert(is_pinned(second[k], pinned));
    }
}

proof fn counting_is_sound<D>(frames: Seq<Frame<D>>, pinned: Option<Place>, cap: int)
    requires
        frames_distinct(frames),
    ensures
        evicted_soundly(frames, counted(frames, pinned, cap), pinned, cap != 0),
        counted(frames, pinned, cap).len() <= cap || last_unpinned(
            counted(frames, pinned, cap),
            pinned,
        ) < (if cap == 0 {
            0int
        } else {
            1
        }),
    decreases frames.len(),
{
    let at = last_unpinned(frames, pinned);
    last_unpinned_bounds(frames, pinned);
    if frames.len() > cap && (at > 0 || (at == 0 && cap == 0)) {
        one_eviction(frames, pinned, cap != 0);
        counting_is_sound(frames.remove(at), pinned, cap);
        evictions_compose(
            frames,
            frames.remove(at),
            counted(frames.remove(at), pinned, cap),
            pinned,
            cap != 0,
        );
    } else {
        assert forall|i: int| 0 <= i < frames.len() implies frames.contains(
            #[trigger] frames[i],
        ) by {}
    }
}

proof fn budgeting_is_sound<D>(frames: Seq<Frame<D>>, pinned: Option<Place>, budget: int)
    requires
        frames_distinct(frames),
    ensures
        evicted_soundly(frames, budgeted(frames, pinned, budget), pinned, true),
        unpinned_bytes(budgeted(frames, pinned, budget), pinned) <= budget || last_unpinned(
            budgeted(frames, pinned, budget),
            pinned,
        ) <= 0,
    decreases frames.len(),
{
    let at = last_unpinned(frames, pinned);
    last_unpinned_bounds(frames, pinned);
    if unpinned_bytes(frames, pinned) > budget && at > 0 {
        one_eviction(frames, pinned, true);
        budgeting_is_sound(frames.remove(at), pinned, budget);
        evictions_compose(
            frames,
            frames.remove(at),
            budgeted(frames.remove(at), pinned, budget),
            pinned,
            true,
        );
    } else {
        assert forall|i: int| 0 <= i < frames.len() implies frames.contains(
            #[trigger] frames[i],
        ) by {}
    }
}

/// Distinct frames hold at most one that is pinned.
proof fn at_most_one_is_pinned<D>(frames: Seq<Frame<D>>, pinned: Option<Place>)
    requires
        frames_distinct(frames),
    ensures
        frames.len() <= last_unpinned(frames, pinned) + 2,
{
    last_unpinned_bounds(frames, pinned);
    let at = last_unpinned(frames, pinned);
    if frames.len() > at + 2 {
        assert(is_pinned(frames[at + 1], pinned));
        assert(is_pinned(frames[at + 2], pinned));
        assert(place(frames[at + 1].path) != place(frames[at + 2].path));
    }
}

/// The newest frame in front keeps the frames distinct.
proof fn newest_added<D>(store: Store<D>, frame: Frame<D>)
    requires
        store.wf(),
        frame.bytes >= 0,
    ensures
        (Store {
            frames: seq![frame] + frames_without(store.frames, place(frame.path)),
            ..store
        }).wf(),
{
    let rest = frames_without(store.frames, place(frame.path));
    frame_at_bounds(store.frames, place(frame.path));
    let found = frame_at(store.frames, place(frame.path));
    if found < store.frames.len() {
        removal_keeps_frames_distinct(store.frames, found);
    }
    let all = seq![frame] + rest;
    assert forall|i: int, j: int| 0 <= i < j < all.len() implies place((#[trigger] all[i]).path)
        != place((#[trigger] all[j]).path) by {
        assert(all[j] == rest[j - 1]);
        if i > 0 {
            assert(all[i] == rest[i - 1]);
            assert(place(rest[i - 1].path) != place(rest[j - 1].path));
        }
    }
    assert forall|i: int| 0 <= i < all.len() implies 0 <= (#[trigger] all[i]).bytes by {
        if i > 0 {
            assert(all[i] == rest[i - 1]);
        }
    }
}

/// Keeping an image: it is in the cache and first, and the image on screen stays if
/// it was there. Counts are within their bound, but for these two. The bytes exceed
/// their budget only where the image is left alone with the one on screen. A cache that
/// may hold nothing holds at most the image on screen.
pub proof fn putting_is_sound<D>(store: Store<D>, frame: Frame<D>)
    requires
        store.wf(),
        frame.bytes >= 0,
    ensures
        store.with(frame).wf(),
        store.cap > 0 ==> store.with(frame).frames.len() > 0 && store.with(frame).frames[0]
            == frame && store.with(frame).contains(frame.path),
        store.cap == 0 ==> forall|i: int|
            0 <= i < store.with(frame).frames.len() ==> is_pinned(
                #[trigger] store.with(frame).frames[i],
                store.pinned,
            ),
        is_pinned(frame, store.pinned) ==> store.with(frame).contains(frame.path),
        forall|i: int|
            0 <= i < store.frames.len() && is_pinned(#[trigger] store.frames[i], store.pinned)
                ==> store.with(frame).contains(store.frames[i].path),
        store.with(frame).frames.len() <= store.cap + 1,
        store.cap >= 2 || store.pinned is None ==> store.with(frame).frames.len() <= store.cap,
        unpinned_bytes(store.with(frame).frames, store.pinned) <= store.budget || forall|i: int|
            1 <= i < store.with(frame).frames.len() ==> is_pinned(
                #[trigger] store.with(frame).frames[i],
                store.pinned,
            ),
{
    newest_added(store, frame);
    let rest = frames_without(store.frames, place(frame.path));
    frame_at_bounds(store.frames, place(frame.path));
    let found = frame_at(store.frames, place(frame.path));
    let all = seq![frame] + rest;
    let middle = counted(all, store.pinned, store.cap);
    let after = budgeted(middle, store.pinned, store.budget);
    counting_is_sound(all, store.pinned, store.cap);
    budgeting_is_sound(middle, store.pinned, store.budget);
    evictions_compose(all, middle, after, store.pinned, store.cap != 0);
    at_most_one_is_pinned(middle, store.pinned);
    at_most_one_is_pinned(after, store.pinned);
    last_unpinned_bounds(middle, store.pinned);
    last_unpinned_bounds(after, store.pinned);
    frame_at_bounds(after, place(frame.path));
    if store.cap == 0 {
        assert forall|i: int| 0 <= i < after.len() implies is_pinned(
            #[trigger] after[i],
            store.pinned,
        ) by {
            assert(middle.contains(after[i]));
            let k = choose|k: int| 0 <= k < middle.len() && middle[k] == after[i];
            assert(is_pinned(middle[k], store.pinned));
        }
    }
    if is_pinned(frame, store.pinned) {
        assert(all[0] == frame);
        assert(after.contains(all[0]));
        let k = choose|k: int| 0 <= k < after.len() && after[k] == frame;
        assert(place(after[k].path) == place(frame.path));
    }
    assert forall|i: int|
        0 <= i < store.frames.len() && is_pinned(#[trigger] store.frames[i], store.pinned)
            implies store.with(frame).contains(store.frames[i].path) by {
        let path = store.frames[i].path;
        frame_at_bounds(after, place(path));
        if place(path) == place(frame.path) {
            assert(is_pinned(frame, store.pinned));
        } else {
            let a = if found < store.frames.len() && i > found { i - 1 } else { i };
            assert(i != found);
            assert(rest[a] == store.frames[i]);
            assert(all[a + 1] == rest[a]);
            assert(after.contains(all[a + 1]));
            let k = choose|k: int| 0 <= k < after.len() && after[k] == all[a + 1];
            assert(place(after[k].path) == place(path));
        }
    }
    assert forall|i: int| 0 <= i < after.len() implies 0 <= (#[trigger] after[i]).bytes by {
        assert(all.contains(after[i]));
        let k = choose|k: int| 0 <= k < all.len() && all[k] == after[i];
        if k > 0 {
            assert(all[k] == rest[k - 1]);
        }
    }
}

/// Using an image keeps the cache sound, changes no image, and makes it the last to go.
pub proof fn using_is_sound<D>(store: Store<D>, path: Seq<u8>)
    requires
        store.wf(),
    ensures
        store.touched(path).wf(),
        store.without(path).wf(),
        !store.without(path).contains(path),
        store.contains(path) ==> store.touched(path).frames[0] == store.frame(path),
        store.touched(path).frames.len() == store.frames.len(),
{
    let found = frame_at(store.frames, place(path));
    frame_at_bounds(store.frames, place(path));
    let rest = frames_without(store.frames, place(path));
    frame_at_bounds(rest, place(path));
    if found < store.frames.len() {
        removal_keeps_frames_distinct(store.frames, found);
        let all = seq![store.frames[found]] + rest;
        assert forall|i: int, j: int| 0 <= i < j < all.len() implies place((#[trigger] all[i]).path)
            != place((#[trigger] all[j]).path) by {
            assert(all[j] == rest[j - 1]);
            if i > 0 {
                assert(all[i] == rest[i - 1]);
            }
        }
        assert forall|i: int| 0 <= i < all.len() implies 0 <= (#[trigger] all[i]).bytes by {
            if i > 0 {
                assert(all[i] == rest[i - 1]);
            }
        }
    }
}

impl<D> Cache<D> {
    pub fn new(cap: usize, budget_bytes: usize) -> (result: Cache<D>)
        ensures
            result@ == (Store::<D> {
                cap: cap as int,
                budget: budget_bytes as int,
                frames: Seq::empty(),
                pinned: None,
            }),
            result@.wf(),
    {
        let result = Cache { cap, budget_bytes, entries: Vec::new(), pinned: None };
        assert(result@.frames =~= Seq::<Frame<D>>::empty());
        result
    }

    /// Marks a path as the image on screen.
    pub fn pin(&mut self, path: &[u8])
        requires
            old(self)@.wf(),
        ensures
            final(self)@ == (Store { pinned: Some(place(path@)), ..old(self)@ }),
            final(self)@.wf(),
    {
        self.pinned = Some(copy_bytes(path));
    }

    fn find(&self, path: &[u8]) -> (result: Option<usize>)
        ensures
            match result {
                Some(at) => at < self@.frames.len() && at == frame_at(self@.frames, place(path@)),
                None => frame_at(self@.frames, place(path@)) == self@.frames.len(),
            },
    {
        proof {
            frame_at_bounds(self@.frames, place(path@));
        }
        for i in 0..self.entries.len()
            invariant
                i <= frame_at(self@.frames, place(path@)) <= self@.frames.len(),
                self@.frames.len() == self.entries@.len(),
        {
            assert(self@.frames[i as int] == self.entries@[i as int]@);
            proof {
                frame_at_bounds(self@.frames, place(path@));
            }
            if same_path(self.entries[i].path.as_slice(), path) {
                return Some(i);
            }
        }
        None
    }

    pub fn contains(&self, path: &[u8]) -> (result: bool)
        ensures
            result == self@.contains(path@),
    {
        self.find(path).is_some()
    }

    /// The image of a path and its media type, which becomes the most recently used.
    pub fn get(&mut self, path: &[u8]) -> (result: Option<(D, String)>) where D: Clone
        requires
            old(self)@.wf(),
        ensures
            final(self)@ == old(self)@.touched(path@),
            final(self)@.wf(),
            match result {
                Some((decoded, mime)) => old(self)@.contains(path@) && cloned(
                    old(self)@.frame(path@).decoded,
                    decoded,
                ) && mime@ == old(self)@.frame(path@).mime,
                None => !old(self)@.contains(path@),
            },
    {
        let ghost before = self@;
        proof {
            using_is_sound(before, path@);
        }
        match self.find(path) {
            Some(at) => {
                assert(before.frames[at as int] == self.entries@[at as int]@);
                let slot = self.entries.remove(at);
                let result = (slot.decoded.clone(), slot.mime.clone());
                self.entries.insert(0, slot);
                assert(self@.frames =~= seq![slot@] + before.frames.remove(at as int));
                Some(result)
            },
            None => None,
        }
    }

    fn pinned_at(&self, at: usize) -> (result: bool)
        requires
            at < self@.frames.len(),
        ensures
            result == is_pinned(self@.frames[at as int], self@.pinned),
    {
        assert(self@.frames[at as int] == self.entries@[at as int]@);
        match &self.pinned {
            Some(path) => same_path(self.entries[at].path.as_slice(), path.as_slice()),
            None => false,
        }
    }

    /// The oldest entry that is not pinned.
    fn find_unpinned(&self) -> (result: Option<usize>)
        ensures
            match result {
                Some(at) => at == last_unpinned(self@.frames, self@.pinned) && at
                    < self@.frames.len(),
                None => last_unpinned(self@.frames, self@.pinned) == -1,
            },
    {
        let mut at: usize = self.entries.len();
        assert(self@.frames.take(self@.frames.len() as int) =~= self@.frames);
        while at > 0
            invariant
                at <= self@.frames.len(),
                self@.frames.len() == self.entries@.len(),
                last_unpinned(self@.frames, self@.pinned) == last_unpinned(
                    self@.frames.take(at as int),
                    self@.pinned,
                ),
            decreases at,
        {
            assert(self@.frames.take(at as int).drop_last() =~= self@.frames.take(at - 1));
            assert(self@.frames.take(at as int).last() == self@.frames[at - 1]);
            if !self.pinned_at(at - 1) {
                return Some(at - 1);
            }
            at = at - 1;
        }
        None
    }

    /// The entry that is the next to go, where one is: the newest only `with_newest`.
    fn next_to_go(&self, with_newest: bool) -> (result: Option<usize>)
        ensures
            match result {
                Some(at) => at == last_unpinned(self@.frames, self@.pinned) && at
                    < self@.frames.len() && (at > 0 || with_newest),
                None => last_unpinned(self@.frames, self@.pinned) < 0 || (last_unpinned(
                    self@.frames,
                    self@.pinned,
                ) == 0 && !with_newest),
            },
    {
        match self.find_unpinned() {
            Some(at) => if at > 0 || with_newest {
                Some(at)
            } else {
                None
            },
            None => None,
        }
    }

    fn total(&self) -> (result: u128)
        requires
            self@.wf(),
        ensures
            result as int == unpinned_bytes(self@.frames, self@.pinned),
    {
        let mut sum: u128 = 0;
        for i in 0..self.entries.len()
            invariant
                self@.wf(),
                self@.frames.len() == self.entries@.len(),
                sum as int == unpinned_bytes(self@.frames.take(i as int), self@.pinned),
                sum <= i * usize::MAX,
        {
            assert(self@.frames.take(i + 1).drop_last() =~= self@.frames.take(i as int));
            assert(self@.frames[i as int] == self.entries@[i as int]@);
            assert(i * usize::MAX + usize::MAX <= u128::MAX && i * usize::MAX + usize::MAX == (i
                + 1) * usize::MAX) by (nonlinear_arith)
                requires
                    i < usize::MAX,
                    usize::MAX <= 0xffff_ffff_ffff_ffff,
            ;
            if !self.pinned_at(i) {
                sum = sum + self.entries[i].bytes as u128;
            }
        }
        assert(self@.frames.take(self@.frames.len() as int) =~= self@.frames);
        sum
    }

    fn evict(&mut self, at: usize)
        requires
            at < old(self)@.frames.len(),
        ensures
            final(self)@ == (Store { frames: old(self)@.frames.remove(at as int), ..old(self)@ }),
    {
        let ghost before = self@;
        self.entries.remove(at);
        assert(self@.frames =~= before.frames.remove(at as int));
    }

    /// Keeps an image as the newest. In a cache that may hold any, the newest stays
    /// even alone over budget: it is the image being (or about to be) shown.
    pub fn put(&mut self, path: Vec<u8>, decoded: D, mime: String, bytes: usize)
        requires
            old(self)@.wf(),
        ensures
            final(self)@ == old(self)@.with(
                Frame { path: path@, decoded, mime: mime@, bytes: bytes as int },
            ),
            final(self)@.wf(),
    {
        let ghost before = self@;
        let ghost frame = Frame { path: path@, decoded, mime: mime@, bytes: bytes as int };
        proof {
            putting_is_sound(before, frame);
            frame_at_bounds(before.frames, place(path@));
        }
        match self.find(path.as_slice()) {
            Some(at) => self.evict(at),
            None => {},
        }
        let ghost rest = self@.frames;
        let slot = Slot { path, decoded, mime, bytes };
        self.entries.insert(0, slot);
        let ghost all = seq![frame] + rest;
        assert(self@.frames =~= all);
        proof {
            newest_added(before, frame);
        }
        let whole: bool = self.cap == 0;
        let mut next: Option<usize> = self.next_to_go(whole);
        while self.entries.len() > self.cap && next.is_some()
            invariant
                self@.frames.len() == self.entries@.len(),
                self.cap as int == before.cap,
                whole == (before.cap == 0),
                self@.wf(),
                self@ == (Store { frames: self@.frames, ..before }),
                match next {
                    Some(at) => at == last_unpinned(self@.frames, self@.pinned) && at
                        < self@.frames.len() && (at > 0 || whole),
                    None => last_unpinned(self@.frames, self@.pinned) < 0 || (last_unpinned(
                        self@.frames,
                        self@.pinned,
                    ) == 0 && !whole),
                },
                counted(all, before.pinned, before.cap) == counted(
                    self@.frames,
                    before.pinned,
                    before.cap,
                ),
            decreases self@.frames.len(),
        {
            if let Some(at) = next {
                proof {
                    removal_keeps_frames_distinct(self@.frames, at as int);
                }
                self.evict(at);
            }
            next = self.next_to_go(whole);
        }
        let ghost middle = self@.frames;
        let mut sum: u128 = self.total();
        next = self.next_to_go(false);
        while sum > self.budget_bytes as u128 && next.is_some()
            invariant
                self@.frames.len() == self.entries@.len(),
                self.budget_bytes as int == before.budget,
                self@.wf(),
                self@ == (Store { frames: self@.frames, ..before }),
                match next {
                    Some(at) => at == last_unpinned(self@.frames, self@.pinned) && 0 < at
                        < self@.frames.len(),
                    None => last_unpinned(self@.frames, self@.pinned) <= 0,
                },
                sum as int == unpinned_bytes(self@.frames, self@.pinned),
                budgeted(middle, before.pinned, before.budget) == budgeted(
                    self@.frames,
                    before.pinned,
                    before.budget,
                ),
            decreases self@.frames.len(),
        {
            if let Some(at) = next {
                proof {
                    removal_keeps_frames_distinct(self@.frames, at as int);
                }
                self.evict(at);
            }
            next = self.next_to_go(false);
            sum = self.total();
        }
    }

    /// Drops a path after the file changed on disk.
    pub fn invalidate(&mut self, path: &[u8])
        requires
            old(self)@.wf(),
        ensures
            final(self)@ == old(self)@.without(path@),
            final(self)@.wf(),
    {
        proof {
            using_is_sound(self@, path@);
        }
        match self.find(path) {
            Some(at) => self.evict(at),
            None => {},
        }
    }
}

/// The cache holds an image exactly where one of its frames is of that place.
pub proof fn holding_is_having_a_frame<D>(store: Store<D>, path: Seq<u8>)
    ensures
        store.contains(path) <==> exists|i: int|
            0 <= i < store.frames.len() && place((#[trigger] store.frames[i]).path) == place(path),
        store.contains(path) ==> place(store.frame(path).path) == place(path)
            && store.frames.contains(store.frame(path)),
{
    frame_at_bounds(store.frames, place(path));
}

/// Dropping an image drops it alone: the images of other places stay, in their
/// order, and nothing appears.
pub proof fn dropping_takes_one_image<D>(store: Store<D>, path: Seq<u8>, other: Seq<u8>)
    requires
        store.wf(),
    ensures
        !store.without(path).contains(path),
        place(other) != place(path) ==> store.without(path).contains(other) == store.contains(
            other,
        ),
        place(other) != place(path) && store.contains(other) ==> store.without(path).frame(other)
            == store.frame(other),
        store.without(path).pinned == store.pinned,
        store.without(path).cap == store.cap,
        store.without(path).budget == store.budget,
{
    using_is_sound(store, path);
    frame_at_bounds(store.frames, place(path));
    frame_at_bounds(store.frames, place(other));
    let found = frame_at(store.frames, place(path));
    if found < store.frames.len() && place(other) != place(path) {
        let rest = store.frames.remove(found);
        frame_at_bounds(rest, place(other));
        let was = frame_at(store.frames, place(other));
        let now = frame_at(rest, place(other));
        if was < store.frames.len() {
            let moved = if was < found {
                was
            } else {
                was - 1
            };
            assert(rest[moved] == store.frames[was]);
            assert(place(rest[moved].path) == place(other));
            assert(now <= moved);
            let origin = if now < found {
                now
            } else {
                now + 1
            };
            assert(rest[now] == store.frames[origin]);
            assert(place(store.frames[origin].path) == place(other));
            assert(origin == was) by {
                if origin < was {
                } else if origin > was {
                    assert(place(store.frames[was].path) != place(store.frames[origin].path));
                }
            }
        } else if now < rest.len() {
            let origin = if now < found {
                now
            } else {
                now + 1
            };
            assert(rest[now] == store.frames[origin]);
            assert(false);
        }
    }
}

/// Using an image gives none away: the same places are held before and after.
pub proof fn using_keeps_every_image<D>(store: Store<D>, path: Seq<u8>, other: Seq<u8>)
    requires
        store.wf(),
    ensures
        store.touched(path).contains(other) == store.contains(other),
        store.touched(path).pinned == store.pinned,
        store.contains(path) ==> place(store.touched(path).frames[0].path) == place(path),
{
    frame_at_bounds(store.frames, place(path));
    frame_at_bounds(store.frames, place(other));
    if store.contains(path) {
        let after = store.touched(path);
        let found = frame_at(store.frames, place(path));
        let rest = store.frames.remove(found);
        frame_at_bounds(after.frames, place(other));
        assert(after.frames[0] == store.frames[found]);
        if store.contains(other) {
            let was = frame_at(store.frames, place(other));
            let now = if was == found {
                0
            } else if was < found {
                was + 1
            } else {
                was
            };
            assert(after.frames[now] == store.frames[was]);
        }
        if after.contains(other) {
            let now = frame_at(after.frames, place(other));
            let was = if now == 0 {
                found
            } else if now - 1 < found {
                now - 1
            } else {
                now
            };
            assert(after.frames[now] == store.frames[was]);
        }
    }
}

/// The image on screen stays whatever else is kept.
pub proof fn the_image_on_screen_stays<D>(store: Store<D>, frame: Frame<D>, shown: Seq<u8>)
    requires
        store.wf(),
        frame.bytes >= 0,
        store.pinned == Some(place(shown)),
    ensures
        store.contains(shown) || place(frame.path) == place(shown) ==> store.with(frame).contains(
            shown,
        ),
        store.with(frame).pinned == Some(place(shown)),
{
    putting_is_sound(store, frame);
    frame_at_bounds(store.frames, place(shown));
    if store.contains(shown) {
        let found = frame_at(store.frames, place(shown));
        assert(is_pinned(store.frames[found], store.pinned));
        holding_is_having_a_frame(store.with(frame), shown);
        holding_is_having_a_frame(store.with(frame), store.frames[found].path);
    }
    if place(frame.path) == place(shown) {
        assert(is_pinned(frame, store.pinned));
        holding_is_having_a_frame(store.with(frame), shown);
        holding_is_having_a_frame(store.with(frame), frame.path);
    }
}

/// What the frames hold in all, but for those of the image on screen.
pub open spec fn weight<D>(frames: Seq<Frame<D>>, pinned: Option<Place>) -> int
    decreases frames.len(),
{
    if frames.len() == 0 {
        0
    } else if pinned == Some(place(frames[0].path)) {
        weight(frames.skip(1), pinned)
    } else {
        frames[0].bytes + weight(frames.skip(1), pinned)
    }
}

proof fn weights_agree<D>(frames: Seq<Frame<D>>, pinned: Option<Place>)
    ensures
        unpinned_bytes(frames, pinned) == weight(frames, pinned),
    decreases frames.len(),
{
    if frames.len() > 0 {
        weights_agree(frames.drop_last(), pinned);
        if frames.len() == 1 {
            assert(frames.skip(1) =~= Seq::empty());
            assert(frames.drop_last() =~= Seq::empty());
        } else {
            weights_agree(frames.skip(1), pinned);
            weights_agree(frames.skip(1).drop_last(), pinned);
            assert(frames.skip(1).drop_last() =~= frames.drop_last().skip(1));
            assert(frames.skip(1).last() == frames.last());
            assert(frames.drop_last()[0] == frames[0]);
        }
    }
}

/// Nothing is given up while all of it fits: in count, and in bytes beside the
/// image on screen.
pub proof fn what_fits_is_kept<D>(store: Store<D>, frame: Frame<D>)
    requires
        !store.contains(frame.path),
        store.frames.len() + 1 <= store.cap,
        weight(seq![frame] + store.frames, store.pinned) <= store.budget,
    ensures
        store.with(frame).frames == seq![frame] + store.frames,
{
    weights_agree(seq![frame] + store.frames, store.pinned);
    frame_at_bounds(store.frames, place(frame.path));
}

proof fn budgets_spare_the_newer<D>(
    frames: Seq<Frame<D>>,
    pinned: Option<Place>,
    budget: int,
    newer: int,
    older: int,
)
    requires
        frames_distinct(frames),
        0 <= newer < older < frames.len(),
        !is_pinned(frames[newer], pinned),
        !is_pinned(frames[older], pinned),
        budgeted(frames, pinned, budget).contains(frames[older]),
    ensures
        budgeted(frames, pinned, budget).contains(frames[newer]),
    decreases frames.len(),
{
    let at = last_unpinned(frames, pinned);
    last_unpinned_bounds(frames, pinned);
    if unpinned_bytes(frames, pinned) > budget && at > 0 {
        let rest = frames.remove(at);
        removal_keeps_frames_distinct(frames, at);
        budgeting_is_sound(rest, pinned, budget);
        let after = budgeted(rest, pinned, budget);
        if older == at {
            let k = choose|k: int| 0 <= k < after.len() && after[k] == frames[older];
            assert(rest.contains(after[k]));
            let m = choose|m: int| 0 <= m < rest.len() && rest[m] == after[k];
            assert(place(rest[m].path) != place(frames[at].path));
        } else {
            assert(rest[newer] == frames[newer]);
            assert(rest[older] == frames[older]);
            budgets_spare_the_newer(rest, pinned, budget, newer, older);
        }
    } else {
        assert(frames[newer] == budgeted(frames, pinned, budget)[newer]);
    }
}

proof fn counts_spare_the_newer<D>(
    frames: Seq<Frame<D>>,
    pinned: Option<Place>,
    cap: int,
    budget: int,
    newer: int,
    older: int,
)
    requires
        frames_distinct(frames),
        0 <= newer < older < frames.len(),
        !is_pinned(frames[newer], pinned),
        !is_pinned(frames[older], pinned),
        budgeted(counted(frames, pinned, cap), pinned, budget).contains(frames[older]),
    ensures
        budgeted(counted(frames, pinned, cap), pinned, budget).contains(frames[newer]),
    decreases frames.len(),
{
    let at = last_unpinned(frames, pinned);
    last_unpinned_bounds(frames, pinned);
    if frames.len() > cap && (at > 0 || (at == 0 && cap == 0)) {
        let rest = frames.remove(at);
        removal_keeps_frames_distinct(frames, at);
        counting_is_sound(rest, pinned, cap);
        let counts = counted(rest, pinned, cap);
        budgeting_is_sound(counts, pinned, budget);
        let after = budgeted(counts, pinned, budget);
        if older == at {
            let k = choose|k: int| 0 <= k < after.len() && after[k] == frames[older];
            assert(counts.contains(after[k]));
            let n = choose|n: int| 0 <= n < counts.len() && counts[n] == after[k];
            assert(rest.contains(counts[n]));
            let m = choose|m: int| 0 <= m < rest.len() && rest[m] == after[k];
            assert(place(rest[m].path) != place(frames[at].path));
        } else {
            assert(rest[newer] == frames[newer]);
            assert(rest[older] == frames[older]);
            counts_spare_the_newer(rest, pinned, cap, budget, newer, older);
        }
    } else {
        budgets_spare_the_newer(frames, pinned, budget, newer, older);
    }
}

/// What was used least recently goes first: where an image stays, one that was
/// used after it stays too.
pub proof fn the_oldest_go_first<D>(store: Store<D>, frame: Frame<D>, newer: int, older: int)
    requires
        store.wf(),
        frame.bytes >= 0,
        0 <= newer < older < store.frames.len(),
        store.pinned != Some(place(store.frames[newer].path)),
        store.pinned != Some(place(store.frames[older].path)),
        place(store.frames[newer].path) != place(frame.path),
        place(store.frames[older].path) != place(frame.path),
    ensures
        store.with(frame).frames.contains(store.frames[older]) ==> store.with(
            frame,
        ).frames.contains(store.frames[newer]),
{
    if store.with(frame).frames.contains(store.frames[older]) {
        newest_added(store, frame);
        frame_at_bounds(store.frames, place(frame.path));
        let found = frame_at(store.frames, place(frame.path));
        let all = seq![frame] + frames_without(store.frames, place(frame.path));
        let i = if newer < found {
            newer + 1
        } else {
            newer
        };
        let j = if older < found {
            older + 1
        } else {
            older
        };
        assert(all[i] == store.frames[newer]);
        assert(all[j] == store.frames[older]);
        counts_spare_the_newer(all, store.pinned, store.cap, store.budget, i, j);
    }
}

/// A frame is charged four bytes for each of its pixels; what has no size that can
/// be told is charged more than any budget holds.
pub proof fn frames_are_charged_by_their_pixels(width: i32, height: i32)
    ensures
        width >= 0 && height >= 0 && width * height * 4 <= usize::MAX ==> frame_size(width, height)
            == 4 * (width * height),
        width < 0 || height < 0 ==> frame_size(width, height) == usize::MAX,
        width >= 0 && height >= 0 && width * height * 4 > usize::MAX ==> frame_size(width, height)
            == usize::MAX,
        0 <= frame_size(width, height) <= usize::MAX,
{
    if width >= 0 && height >= 0 {
        assert(0 <= width * height) by (nonlinear_arith)
            requires
                0 <= width,
                0 <= height,
        ;
    }
}

/// A vector image is told by its media type, compressed or not, and by nothing else.
pub proof fn vector_images_are_told_by_their_type(mime: Seq<char>)
    ensures
        is_svg_type("image/svg+xml"@),
        is_svg_type("image/svg+xml-compressed"@),
        mime != "image/svg+xml"@ && mime != "image/svg+xml-compressed"@ ==> !is_svg_type(mime),
{
}

}
