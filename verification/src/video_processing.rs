//! The inputs of an export: which clips go into it and in what order, and
//! what is handed to the native encoder.

use crate::error::{Error, ErrorKind};
use crate::native::{c_text, to_c_text};
use crate::text::same_text;
use vstd::prelude::*;
use vstd::string::*;

verus! {

/// The whole, for fractions counted in millionths: progress, and the place
/// and size of the picture in the picture.
pub const WHOLE: u32 = 1_000_000;

/// What a clip shows.
#[derive(Clone, Copy, Debug, PartialEq, Eq, Structural)]
pub enum ClipRole {
    Screen,
    Webcam,
}

/// The outline of the picture in the picture.
#[derive(Clone, Copy, Debug, PartialEq, Eq, Structural)]
pub enum PipShape {
    Rectangle,
    Circle,
    RoundedRect,
}

/// The role that a name stands for, if any.
pub open spec fn role_named(name: Seq<char>) -> Option<ClipRole> {
    if name == "screen"@ {
        Some(ClipRole::Screen)
    } else if name == "webcam"@ {
        Some(ClipRole::Webcam)
    } else {
        None
    }
}

/// The name of a role.
pub open spec fn role_name(role: ClipRole) -> Seq<char> {
    match role {
        ClipRole::Screen => "screen"@,
        ClipRole::Webcam => "webcam"@,
    }
}

/// The name of an outline.
pub open spec fn shape_name(shape: PipShape) -> Seq<char> {
    match shape {
        PipShape::Rectangle => "rectangle"@,
        PipShape::Circle => "circle"@,
        PipShape::RoundedRect => "rounded_rect"@,
    }
}

/// A role is found again by its name, and so is an outline.
pub proof fn lemma_names_round_trip(role: ClipRole, shape: PipShape)
    ensures
        role_named(role_name(role)) == Some(role),
        shape_named(shape_name(shape)) == shape,
{
    reveal_strlit("screen");
    reveal_strlit("webcam");
    reveal_strlit("rectangle");
    reveal_strlit("circle");
    reveal_strlit("rounded_rect");
    assert("webcam"@[0] != "screen"@[0]);
    assert("rectangle"@.len() == 9 && "circle"@.len() == 6 && "rounded_rect"@.len() == 12);
}

/// The outline that a name stands for: a rectangle for every name but
/// those of the other outlines.
pub open spec fn shape_named(name: Seq<char>) -> PipShape {
    if name == "circle"@ {
        PipShape::Circle
    } else if name == "rounded_rect"@ {
        PipShape::RoundedRect
    } else {
        PipShape::Rectangle
    }
}

impl ClipRole {
    /// The role that `name` stands for: `screen` or `webcam`.
    pub fn from_name(name: &str) -> (r: Option<ClipRole>)
        ensures
            r == role_named(name@),
    {
        if same_text(name, "screen") {
            Some(ClipRole::Screen)
        } else if same_text(name, "webcam") {
            Some(ClipRole::Webcam)
        } else {
            None
        }
    }

    /// The name of the role.
    pub fn name(self) -> (s: &'static str)
        ensures
            s@ == role_name(self),
    {
        match self {
            ClipRole::Screen => "screen",
            ClipRole::Webcam => "webcam",
        }
    }
}

impl PipShape {
    /// The outline that `name` stands for.
    pub fn from_name(name: &str) -> (r: PipShape)
        ensures
            r == shape_named(name@),
    {
        if same_text(name, "circle") {
            PipShape::Circle
        } else if same_text(name, "rounded_rect") {
            PipShape::RoundedRect
        } else {
            PipShape::Rectangle
        }
    }

    /// The name of the outline.
    pub fn name(self) -> (s: &'static str)
        ensures
            s@ == shape_name(self),
    {
        match self {
            PipShape::Rectangle => "rectangle",
            PipShape::Circle => "circle",
            PipShape::RoundedRect => "rounded_rect",
        }
    }
}

/// Where the webcam picture sits in the frame: its top left corner and its
/// extent, as fractions of the frame in millionths, and its outline.
#[derive(Clone, Copy, Debug, PartialEq, Eq, Structural)]
pub struct PipConfig {
    pub x: u32,
    pub y: u32,
    pub width: u32,
    pub height: u32,
    pub shape: PipShape,
}

/// One input of an export. Times are in microseconds on the timeline.
#[derive(Debug, PartialEq, Eq)]
pub struct VideoClip {
    pub path: String,
    pub start_time: i64,
    pub duration: u64,
    pub role: ClipRole,
    pub pip_config: Option<PipConfig>,
}

/// How to encode. Only `format` is read here; the rest goes to the encoder
/// as it is.
#[derive(Debug, PartialEq, Eq)]
pub struct ExportSettings {
    pub resolution: String,
    pub quality: String,
    pub format: String,
    pub preset: String,
}

/// Whether the clips of `s` stand in the order of their start times.
pub open spec fn in_order(s: Seq<VideoClip>) -> bool {
    forall|i: int, j: int| 0 <= i < j < s.len() ==> s[i].start_time <= s[j].start_time
}

/// The test for clips that start at `t`.
pub open spec fn starts_at(t: i64) -> spec_fn(VideoClip) -> bool {
    |c: VideoClip| c.start_time == t
}

/// Where a clip that starts at `t` goes into `s`: behind every clip that
/// starts no later.
pub open spec fn insertion_point(s: Seq<VideoClip>, t: i64) -> int
    decreases s.len(),
{
    if s.len() == 0 || s.last().start_time <= t {
        s.len() as int
    } else {
        insertion_point(s.drop_last(), t)
    }
}

/// The clips of `s` by start time, clips with the same start time in the
/// order in which they stand in `s`.
pub open spec fn sorted_clips(s: Seq<VideoClip>) -> Seq<VideoClip>
    decreases s.len(),
{
    if s.len() == 0 {
        s
    } else {
        let rest = sorted_clips(s.drop_last());
        rest.insert(insertion_point(rest, s.last().start_time), s.last())
    }
}

/// In an ordered sequence the insertion point parts the clips that start
/// no later than `t` from those that start later.
pub proof fn lemma_insertion_point(s: Seq<VideoClip>, t: i64)
    requires
        in_order(s),
    ensures
        0 <= insertion_point(s, t) <= s.len(),
        forall|i: int| 0 <= i < insertion_point(s, t) ==> (#[trigger] s[i]).start_time <= t,
        forall|i: int| insertion_point(s, t) <= i < s.len() ==> (#[trigger] s[i]).start_time > t,
    decreases s.len(),
{
    if s.len() > 0 && s.last().start_time > t {
        let r = s.drop_last();
        assert forall|i: int, j: int| 0 <= i < j < r.len() implies r[i].start_time
            <= r[j].start_time by {
            assert(r[i] == s[i] && r[j] == s[j]);
        }
        lemma_insertion_point(r, t);
        assert forall|i: int| 0 <= i < insertion_point(s, t) implies (#[trigger] s[i]).start_time
            <= t by {
            assert(s[i] == r[i]);
        }
        assert forall|i: int| insertion_point(s, t) <= i < s.len() implies (
        #[trigger] s[i]).start_time > t by {
            if i < r.len() {
                assert(s[i] == r[i]);
            }
        }
    } else if s.len() > 0 {
        assert forall|i: int| 0 <= i < s.len() implies (#[trigger] s[i]).start_time <= t by {
            if i < s.len() - 1 {
                assert(s[i].start_time <= s[s.len() - 1].start_time);
            }
        }
    }
}

/// Putting a clip at its insertion point keeps the order, and keeps the
/// clips of each start time in their order, the new clip last among its
/// equals.
pub proof fn lemma_insert_in_order(s: Seq<VideoClip>, c: VideoClip)
    requires
        in_order(s),
    ensures
        in_order(s.insert(insertion_point(s, c.start_time), c)),
        forall|t: i64|
            #![trigger starts_at(t)]
            s.insert(insertion_point(s, c.start_time), c).filter(starts_at(t)) == if t
                == c.start_time {
                s.filter(starts_at(t)).push(c)
            } else {
                s.filter(starts_at(t))
            },
{
    let k = insertion_point(s, c.start_time);
    lemma_insertion_point(s, c.start_time);
    let r = s.insert(k, c);
    let a = s.subrange(0, k);
    let b = s.subrange(k, s.len() as int);
    assert(s == a + b);
    assert(r == a.push(c) + b);
    assert forall|i: int, j: int| 0 <= i < j < r.len() implies r[i].start_time
        <= r[j].start_time by {
        if i < k && j > k {
            assert(r[i] == s[i] && r[j] == s[j - 1]);
        } else if i < k && j < k {
            assert(r[i] == s[i] && r[j] == s[j]);
        } else if i > k {
            assert(r[i] == s[i - 1] && r[j] == s[j - 1]);
        } else if i == k {
            assert(r[j] == s[j - 1]);
        } else {
            assert(r[i] == s[i]);
        }
    }
    assert forall|t: i64| #![trigger starts_at(t)] r.filter(starts_at(t)) == if t == c.start_time {
        s.filter(starts_at(t)).push(c)
    } else {
        s.filter(starts_at(t))
    } by {
        let p = starts_at(t);
        Seq::filter_distributes_over_add(a, b, p);
        Seq::filter_distributes_over_add(a.push(c), b, p);
        Seq::lemma_filter_push(a, c, p);
        if t == c.start_time {
            assert forall|i: int| 0 <= i < b.len() implies !p(#[trigger] b[i]) by {
                assert(b[i] == s[k + i]);
            }
            b.lemma_all_neg_filter_empty(p);
            assert(b.filter(p) =~= Seq::<VideoClip>::empty());
            assert(a.filter(p) + b.filter(p) =~= a.filter(p));
            assert(a.filter(p).push(c) + b.filter(p) =~= a.filter(p).push(c));
        }
    }
}

/// What `sorted_clips` gives is in order, holds the clips of the input and
/// no others, and keeps clips of one start time in the order of the input.
pub proof fn lemma_sorted_clips(s: Seq<VideoClip>)
    ensures
        in_order(sorted_clips(s)),
        sorted_clips(s).len() == s.len(),
        sorted_clips(s).to_multiset() == s.to_multiset(),
        forall|t: i64|
            #![trigger starts_at(t)]
            sorted_clips(s).filter(starts_at(t)) == s.filter(starts_at(t)),
    decreases s.len(),
{
    if s.len() > 0 {
        let head = s.drop_last();
        let c = s.last();
        let rest = sorted_clips(head);
        lemma_sorted_clips(head);
        lemma_insert_in_order(rest, c);
        let k = insertion_point(rest, c.start_time);
        lemma_insertion_point(rest, c.start_time);
        assert(s == head.push(c));
        vstd::seq_lib::to_multiset_insert(rest, k, c);
        vstd::seq_lib::to_multiset_build(head, c);
        assert forall|t: i64| #![trigger starts_at(t)] sorted_clips(s).filter(starts_at(t))
            == s.filter(starts_at(t)) by {
            Seq::lemma_filter_push(head, c, starts_at(t));
        }
    } else {
        assert forall|t: i64| #![trigger starts_at(t)] sorted_clips(s).filter(starts_at(t))
            == s.filter(starts_at(t)) by {}
    }
}

/// The first clip of an ordered sequence starts no later than any clip that
/// the sequence holds.
proof fn lemma_first_is_earliest(s: Seq<VideoClip>, c: VideoClip)
    requires
        in_order(s),
        s.contains(c),
    ensures
        s[0].start_time <= c.start_time,
{
    let j = choose|j: int| 0 <= j < s.len() && s[j] == c;
    if j > 0 {
        assert(s[0].start_time <= s[j].start_time);
    }
}

/// Two ordered sequences that hold, for each start time, the same clips in
/// the same order are one sequence: the order by start time with ties in
/// the order of the input leaves no choice.
pub proof fn lemma_stable_order_is_unique(a: Seq<VideoClip>, b: Seq<VideoClip>)
    requires
        in_order(a),
        in_order(b),
        forall|t: i64| #![trigger starts_at(t)] a.filter(starts_at(t)) == b.filter(starts_at(t)),
    ensures
        a == b,
    decreases a.len() + b.len(),
{
    if a.len() == 0 || b.len() == 0 {
        let s = if a.len() == 0 {
            b
        } else {
            a
        };
        if s.len() > 0 {
            let p = starts_at(s[0].start_time);
            s.lemma_filter_contains(p, 0);
            a.lemma_filter_len(p);
            b.lemma_filter_len(p);
        }
        assert(a =~= b);
    } else {
        let x = a[0];
        let y = b[0];
        let p = starts_at(x.start_time);
        let q = starts_at(y.start_time);
        a.lemma_filter_contains(p, 0);
        b.lemma_filter_contains_rev(p, x);
        lemma_first_is_earliest(b, x);
        b.lemma_filter_contains(q, 0);
        a.lemma_filter_contains_rev(q, y);
        lemma_first_is_earliest(a, y);
        assert(x.start_time == y.start_time);
        let ar = a.drop_first();
        let br = b.drop_first();
        assert(a == seq![x] + ar);
        assert(b == seq![y] + br);
        ar.lemma_filter_prepend(x, p);
        br.lemma_filter_prepend(y, p);
        assert(a.filter(p)[0] == x);
        assert(b.filter(p)[0] == y);
        assert(x == y);
        assert forall|t: i64| #![trigger starts_at(t)] ar.filter(starts_at(t)) == br.filter(
            starts_at(t),
        ) by {
            let r = starts_at(t);
            ar.lemma_filter_prepend(x, r);
            br.lemma_filter_prepend(y, r);
            if r(x) {
                assert(ar.filter(r) =~= a.filter(r).drop_first());
                assert(br.filter(r) =~= b.filter(r).drop_first());
            } else {
                assert(ar.filter(r) =~= a.filter(r));
                assert(br.filter(r) =~= b.filter(r));
            }
        }
        assert forall|i: int, j: int| 0 <= i < j < ar.len() implies ar[i].start_time
            <= ar[j].start_time by {
            assert(ar[i] == a[i + 1] && ar[j] == a[j + 1]);
        }
        assert forall|i: int, j: int| 0 <= i < j < br.len() implies br[i].start_time
            <= br[j].start_time by {
            assert(br[i] == b[i + 1] && br[j] == b[j + 1]);
        }
        lemma_stable_order_is_unique(ar, br);
    }
}

/// Clips that stand in order already are left as they are.
pub proof fn lemma_sorting_is_idempotent(s: Seq<VideoClip>)
    ensures
        in_order(s) ==> sorted_clips(s) == s,
        sorted_clips(sorted_clips(s)) == sorted_clips(s),
{
    lemma_sorted_clips(s);
    lemma_sorted_clips(sorted_clips(s));
    if in_order(s) {
        lemma_stable_order_is_unique(sorted_clips(s), s);
    }
    lemma_stable_order_is_unique(sorted_clips(sorted_clips(s)), sorted_clips(s));
}

/// Puts `clip` into the ordered `out` behind every clip that starts no
/// later.
fn insert_in_order(out: &mut Vec<VideoClip>, clip: VideoClip)
    ensures
        final(out)@ == old(out)@.insert(insertion_point(old(out)@, clip.start_time), clip),
{
    let mut k: usize = out.len();
    assert(out@.subrange(0, k as int) == out@);
    while k > 0 && out[k - 1].start_time > clip.start_time
        invariant
            k <= out.len(),
            out@ == old(out)@,
            insertion_point(out@, clip.start_time) == insertion_point(
                out@.subrange(0, k as int),
                clip.start_time,
            ),
        decreases k,
    {
        k -= 1;
        assert(out@.subrange(0, k + 1).drop_last() == out@.subrange(0, k as int));
    }
    out.insert(k, clip);
}

/// Orders clips by start time. Clips with the same start time keep the
/// order in which they came.
pub fn sort_clips(clips: Vec<VideoClip>) -> (r: Vec<VideoClip>)
    ensures
        r@ == sorted_clips(clips@),
        in_order(r@),
        r@.len() == clips@.len(),
        r@.to_multiset() == clips@.to_multiset(),
        forall|t: i64| #![trigger starts_at(t)] r@.filter(starts_at(t)) == clips@.filter(starts_at(t)),
{
    let mut out: Vec<VideoClip> = Vec::new();
    for clip in it: clips.into_iter()
        invariant
            it.seq() == clips@,
            out@ == sorted_clips(clips@.subrange(0, it.index() as int)),
    {
        let ghost n = it.index();
        insert_in_order(&mut out, clip);
        assert(clips@.subrange(0, n + 1).drop_last() == clips@.subrange(0, n as int));
    }
    assert(clips@.subrange(0, clips@.len() as int) == clips@);
    proof {
        lemma_sorted_clips(clips@);
    }
    out
}

/// Whether `s` holds a clip of the given role.
pub open spec fn has_role(s: Seq<VideoClip>, role: ClipRole) -> bool {
    exists|i: int| 0 <= i < s.len() && (#[trigger] s[i]).role == role
}

/// Whether the clip at `i` is the first of `s` with the given role.
pub open spec fn is_first_with_role(s: Seq<VideoClip>, role: ClipRole, i: int) -> bool {
    &&& 0 <= i < s.len()
    &&& s[i].role == role
    &&& forall|j: int| 0 <= j < i ==> (#[trigger] s[j]).role != role
}

/// There is one first clip of a role at most, and none where no clip has
/// the role.
pub proof fn lemma_first_is_unique(s: Seq<VideoClip>, role: ClipRole)
    ensures
        forall|i: int, j: int|
            is_first_with_role(s, role, i) && is_first_with_role(s, role, j) ==> i == j,
        forall|i: int| is_first_with_role(s, role, i) ==> has_role(s, role),
{
    assert forall|i: int, j: int|
        is_first_with_role(s, role, i) && is_first_with_role(s, role, j) implies i == j by {
        if i < j {
            assert(s[i].role != role);
        }
        if j < i {
            assert(s[j].role != role);
        }
    }
}

/// Ordering the clips neither adds a role nor loses one.
pub proof fn lemma_sorting_keeps_roles(s: Seq<VideoClip>, role: ClipRole)
    ensures
        has_role(sorted_clips(s), role) == has_role(s, role),
{
    let r = sorted_clips(s);
    lemma_sorted_clips(s);
    if has_role(s, role) {
        let i = choose|i: int| 0 <= i < s.len() && (#[trigger] s[i]).role == role;
        vstd::seq_lib::to_multiset_contains(s, s[i]);
        vstd::seq_lib::to_multiset_contains(r, s[i]);
        assert(s.contains(s[i]));
        let j = choose|j: int| 0 <= j < r.len() && r[j] == s[i];
        assert(r[j].role == role);
    }
    if has_role(r, role) {
        let i = choose|i: int| 0 <= i < r.len() && (#[trigger] r[i]).role == role;
        vstd::seq_lib::to_multiset_contains(s, r[i]);
        vstd::seq_lib::to_multiset_contains(r, r[i]);
        assert(r.contains(r[i]));
        let j = choose|j: int| 0 <= j < s.len() && s[j] == r[i];
        assert(s[j].role == role);
    }
}

/// Where only one clip has the given role, that clip is the one selected
/// after ordering, wherever it stood.
pub proof fn lemma_single_clip_is_selected(s: Seq<VideoClip>, role: ClipRole, i: int, k: int)
    requires
        0 <= i < s.len(),
        s[i].role == role,
        forall|j: int| 0 <= j < s.len() && j != i ==> (#[trigger] s[j]).role != role,
        is_first_with_role(sorted_clips(s), role, k),
    ensures
        sorted_clips(s)[k] == s[i],
{
    let r = sorted_clips(s);
    lemma_sorted_clips(s);
    vstd::seq_lib::to_multiset_contains(s, r[k]);
    vstd::seq_lib::to_multiset_contains(r, r[k]);
    assert(r.contains(r[k]));
    let j = choose|j: int| 0 <= j < s.len() && s[j] == r[k];
    assert(s[j].role == role);
}

/// The position of the first clip with the given role.
pub fn find_clip(clips: &Vec<VideoClip>, role: ClipRole) -> (r: Option<usize>)
    ensures
        match r {
            Some(i) => is_first_with_role(clips@, role, i as int),
            None => !has_role(clips@, role),
        },
{
    let mut i: usize = 0;
    while i < clips.len()
        invariant
            i <= clips.len(),
            forall|j: int| 0 <= j < i ==> (#[trigger] clips@[j]).role != role,
        decreases clips.len() - i,
    {
        if clips[i].role == role {
            return Some(i);
        }
        i += 1;
    }
    None
}

/// Where and how large the picture in the picture is drawn.
#[derive(Clone, Copy, Debug, PartialEq, Eq, Structural)]
pub struct PipPlacement {
    pub x: u32,
    pub y: u32,
    pub size: u32,
    pub shape: PipShape,
}

/// The placement for an export with the given webcam clip: what the clip
/// asks for; the lower right corner at a fifth of the frame where it asks
/// for nothing; and nothing at all without a webcam clip.
pub open spec fn pip_placement(webcam: Option<VideoClip>) -> PipPlacement {
    match webcam {
        Some(clip) => match clip.pip_config {
            Some(config) => PipPlacement {
                x: config.x,
                y: config.y,
                size: config.width,
                shape: config.shape,
            },
            None => PipPlacement { x: 800_000, y: 800_000, size: 200_000, shape: PipShape::Rectangle },
        },
        None => PipPlacement { x: 0, y: 0, size: 0, shape: PipShape::Rectangle },
    }
}

/// The placement of the picture in the picture for an export with the
/// given webcam clip, or without one.
pub fn derive_pip(webcam: Option<&VideoClip>) -> (r: PipPlacement)
    ensures
        r == pip_placement(
            match webcam {
                Some(clip) => Some(*clip),
                None => None,
            },
        ),
{
    match webcam {
        Some(clip) => match clip.pip_config {
            Some(config) => PipPlacement {
                x: config.x,
                y: config.y,
                size: config.width,
                shape: config.shape,
            },
            None => PipPlacement { x: 800_000, y: 800_000, size: 200_000, shape: PipShape::Rectangle },
        },
        None => PipPlacement { x: 0, y: 0, size: 0, shape: PipShape::Rectangle },
    }
}

/// The clips of one export in timeline order, with the two that are used.
#[derive(Debug, PartialEq, Eq)]
pub struct ExportPlan {
    pub clips: Vec<VideoClip>,
    /// The position of the screen clip.
    pub screen: usize,
    /// The position of the webcam clip, if there is one.
    pub webcam: Option<usize>,
}

impl ExportPlan {
    /// Whether the clips are in order and the two positions name the first
    /// clip of each role.
    pub open spec fn wf(&self) -> bool {
        &&& in_order(self.clips@)
        &&& is_first_with_role(self.clips@, ClipRole::Screen, self.screen as int)
        &&& match self.webcam {
            Some(w) => is_first_with_role(self.clips@, ClipRole::Webcam, w as int),
            None => !has_role(self.clips@, ClipRole::Webcam),
        }
    }

    /// The webcam clip that goes into the export: the one selected, if its
    /// file is there.
    pub open spec fn used_webcam(&self, webcam_exists: bool) -> Option<VideoClip> {
        match self.webcam {
            Some(w) if webcam_exists => Some(self.clips@[w as int]),
            _ => None,
        }
    }
}

/// Orders the clips of a submission and selects the screen clip and the
/// webcam clip: of each role the first in timeline order. A submission
/// without a screen clip is refused.
pub fn plan_export(clips: Vec<VideoClip>) -> (r: Result<ExportPlan, Error>)
    ensures
        r is Ok <==> has_role(clips@, ClipRole::Screen),
        match r {
            Ok(plan) => plan.clips@ == sorted_clips(clips@) && plan.wf(),
            Err(e) => e.kind == ErrorKind::NoScreenClip && e.detail@.len() == 0,
        },
{
    proof {
        lemma_sorting_keeps_roles(clips@, ClipRole::Screen);
    }
    let sorted = sort_clips(clips);
    let screen = find_clip(&sorted, ClipRole::Screen);
    let webcam = find_clip(&sorted, ClipRole::Webcam);
    match screen {
        Some(screen) => Ok(ExportPlan { clips: sorted, screen, webcam }),
        None => Err(Error::new(ErrorKind::NoScreenClip)),
    }
}

/// What is handed to the native encoder for one export.
#[derive(Debug, PartialEq, Eq)]
pub struct ExportRequest {
    pub screen_path: String,
    pub webcam_path: Option<String>,
    pub output_path: String,
    pub format: String,
    pub quality: String,
    pub resolution: String,
    pub pip: PipPlacement,
    /// Whether a webcam clip was left out because its file is missing.
    pub webcam_missing: bool,
}

impl ExportRequest {
    /// Whether this is the request for the export that `plan` describes, to
    /// `destination`, with `settings`: the sources and the placement of the
    /// picture in the picture by the plan and by whether the file of the
    /// webcam clip is there, and each text as it can be handed over.
    pub open spec fn is_for(
        &self,
        plan: &ExportPlan,
        webcam_exists: bool,
        destination: Seq<char>,
        settings: &ExportSettings,
    ) -> bool {
        &&& self.screen_path@ == c_text(plan.clips@[plan.screen as int].path@)
        &&& match self.webcam_path {
            Some(p) => plan.used_webcam(webcam_exists) is Some && p@ == c_text(
                plan.used_webcam(webcam_exists)->0.path@,
            ),
            None => plan.used_webcam(webcam_exists) is None,
        }
        &&& self.output_path@ == c_text(destination)
        &&& self.format@ == c_text(settings.format@)
        &&& self.quality@ == c_text(settings.quality@)
        &&& self.resolution@ == c_text(settings.resolution@)
        &&& self.pip == pip_placement(plan.used_webcam(webcam_exists))
        &&& self.webcam_missing == (plan.webcam is Some && !webcam_exists)
    }
}

/// Tells whether the clips stand in the order of their start times.
pub fn clips_in_order(clips: &Vec<VideoClip>) -> (b: bool)
    ensures
        b == in_order(clips@),
{
    let mut i: usize = 1;
    while i < clips.len()
        invariant
            1 <= i,
            forall|a: int, b: int|
                0 <= a < b < i && b < clips@.len() ==> clips@[a].start_time <= clips@[b].start_time,
        decreases clips.len() - i,
    {
        if clips[i - 1].start_time > clips[i].start_time {
            return false;
        }
        assert forall|a: int, b: int| 0 <= a < b < i + 1 && b < clips@.len() implies clips@[a].start_time
            <= clips@[b].start_time by {
            if b == i && a < i - 1 {
                assert(clips@[a].start_time <= clips@[i - 1].start_time);
            }
        }
        i += 1;
    }
    true
}

impl ExportPlan {
    /// Tells whether the clips are in order and the two positions name the
    /// first clip of each role.
    pub fn is_well_formed(&self) -> (b: bool)
        ensures
            b == self.wf(),
    {
        if !clips_in_order(&self.clips) {
            return false;
        }
        let screen = find_clip(&self.clips, ClipRole::Screen);
        let webcam = find_clip(&self.clips, ClipRole::Webcam);
        proof {
            lemma_first_is_unique(self.clips@, ClipRole::Screen);
            lemma_first_is_unique(self.clips@, ClipRole::Webcam);
        }
        screen == Some(self.screen) && webcam == self.webcam
    }

    /// The screen clip.
    pub fn screen_clip(&self) -> (clip: &VideoClip)
        requires
            self.wf(),
        ensures
            *clip == self.clips@[self.screen as int],
            clip.role == ClipRole::Screen,
    {
        &self.clips[self.screen]
    }

    /// The webcam clip, if there is one.
    pub fn webcam_clip(&self) -> (clip: Option<&VideoClip>)
        requires
            self.wf(),
        ensures
            match clip {
                Some(c) => self.webcam is Some && *c == self.clips@[self.webcam->0 as int] && c.role
                    == ClipRole::Webcam,
                None => self.webcam is None,
            },
    {
        match self.webcam {
            Some(w) => Some(&self.clips[w]),
            None => None,
        }
    }

    /// The request for the native encoder: the two sources, the resolved
    /// destination, the settings, and the placement of the picture in the
    /// picture. A webcam clip whose file is missing is left out, and the
    /// export goes on without picture in picture.
    pub fn request(&self, webcam_exists: bool, destination: &str, settings: &ExportSettings) -> (r:
        ExportRequest)
        requires
            self.wf(),
        ensures
            r.is_for(self, webcam_exists, destination@, settings),
    {
        let webcam: Option<&VideoClip> = if webcam_exists {
            self.webcam_clip()
        } else {
            None
        };
        ExportRequest {
            screen_path: to_c_text(self.screen_clip().path.as_str()),
            webcam_path: match webcam {
                Some(clip) => Some(to_c_text(clip.path.as_str())),
                None => None,
            },
            output_path: to_c_text(destination),
            format: to_c_text(settings.format.as_str()),
            quality: to_c_text(settings.quality.as_str()),
            resolution: to_c_text(settings.resolution.as_str()),
            pip: derive_pip(webcam),
            webcam_missing: self.webcam.is_some() && !webcam_exists,
        }
    }
}

} // verus!
