use vstd::prelude::*;

use vstd::math::min;

use crate::frame::{DecodedFrame, Image, RawFrame};

verus! {

broadcast use vstd::seq_lib::group_to_multiset_ensures, vstd::multiset::group_multiset_axioms;

/// Hands out sequence numbers to the frames of one source, in the order the
/// source yields them. It stands beside the source under a single lock, so
/// that reading a frame and numbering it are one step.
pub struct FrameCoordinator {
    next: usize,
    exhausted: bool,
}

impl View for FrameCoordinator {
    /// How many frames have been numbered, and whether the source has ended.
    type V = (nat, bool);

    closed spec fn view(&self) -> (nat, bool) {
        (self.next as nat, self.exhausted)
    }
}

/// The state of a coordinator that has not numbered anything yet.
pub open spec fn fresh_state() -> (nat, bool) {
    (0, false)
}

/// One step of the coordinator: what the source yielded (`None` when it
/// ended or failed) gives the next state and the numbered frame, if any.
/// Once the source has ended nothing more is numbered.
pub open spec fn tag_step(state: (nat, bool), decoded: Option<DecodedFrame>) -> ((nat, bool), Option<
    RawFrame,
>) {
    match decoded {
        Some(f) => if !state.1 && state.0 < usize::MAX {
            (
                (state.0 + 1, false),
                Some(
                    RawFrame {
                        data: f.data,
                        width: f.width,
                        height: f.height,
                        number: state.0 as usize,
                    },
                ),
            )
        } else {
            ((state.0, true), None)
        },
        None => ((state.0, true), None),
    }
}

/// The numbered frames, in order, that a coordinator in `state` hands out
/// when the source yields `decoded` one after another.
pub open spec fn tagged_run(state: (nat, bool), decoded: Seq<Option<DecodedFrame>>) -> Seq<RawFrame>
    decreases decoded.len(),
{
    if decoded.len() == 0 {
        Seq::empty()
    } else {
        let (next, out) = tag_step(state, decoded[0]);
        let rest = tagged_run(next, decoded.drop_first());
        match out {
            Some(f) => seq![f] + rest,
            None => rest,
        }
    }
}

/// How many frames the source yields before it first ends or fails.
pub open spec fn leading_frames(decoded: Seq<Option<DecodedFrame>>) -> nat
    decreases decoded.len(),
{
    if decoded.len() == 0 || decoded[0] is None {
        0
    } else {
        1 + leading_frames(decoded.drop_first())
    }
}

/// The frame that the source yielded, with a sequence number attached.
pub open spec fn is_tagged(raw: RawFrame, decoded: Option<DecodedFrame>, number: int) -> bool {
    &&& decoded is Some
    &&& raw.data == decoded->0.data
    &&& raw.width == decoded->0.width
    &&& raw.height == decoded->0.height
    &&& raw.number == number
}

impl FrameCoordinator {
    pub fn new() -> (c: FrameCoordinator)
        ensures
            c@ == fresh_state(),
    {
        FrameCoordinator { next: 0, exhausted: false }
    }

    /// Numbers what the source just yielded. `decoded` is `None` when the
    /// source ended or failed; from then on nothing more is numbered.
    pub fn tag(&mut self, decoded: Option<DecodedFrame>) -> (raw: Option<RawFrame>)
        ensures
            (final(self)@, raw) == tag_step(old(self)@, decoded),
    {
        match decoded {
            Some(f) => {
                if !self.exhausted && self.next < usize::MAX {
                    let number: usize = self.next;
                    self.next = self.next + 1;
                    Some(RawFrame { data: f.data, width: f.width, height: f.height, number })
                } else {
                    self.exhausted = true;
                    None
                }
            },
            None => {
                self.exhausted = true;
                None
            },
        }
    }
}

proof fn lemma_tagged_run_from(n: nat, ended: bool, decoded: Seq<Option<DecodedFrame>>)
    requires
        n <= usize::MAX,
    ensures
        tagged_run((n, ended), decoded).len() <= decoded.len(),
        ended ==> tagged_run((n, ended), decoded).len() == 0,
        !ended ==> tagged_run((n, ended), decoded).len() == min(
            leading_frames(decoded) as int,
            usize::MAX - n,
        ),
        forall|k: int|
            0 <= k < tagged_run((n, ended), decoded).len() ==> is_tagged(
                #[trigger] tagged_run((n, ended), decoded)[k],
                decoded[k],
                n + k,
            ),
    decreases decoded.len(),
{
    if decoded.len() > 0 {
        let (next, out) = tag_step((n, ended), decoded[0]);
        lemma_tagged_run_from(next.0, next.1, decoded.drop_first());
        let rest = tagged_run(next, decoded.drop_first());
        let run = tagged_run((n, ended), decoded);
        if out is Some {
            assert forall|k: int| 0 <= k < run.len() implies is_tagged(
                #[trigger] run[k],
                decoded[k],
                n + k,
            ) by {
                if k > 0 {
                    assert(run[k] == rest[k - 1]);
                    assert(decoded[k] == decoded.drop_first()[k - 1]);
                }
            }
        }
    }
}

/// However many workers share the source and however their requests
/// interleave, the coordinator numbers the frames the source yields, up to
/// its first end or failure, 0, 1, ..., n - 1 in the order the source
/// yielded them: every number once, none skipped, and each on the frame it
/// belongs to.
pub proof fn lemma_numbers_follow_source_order(decoded: Seq<Option<DecodedFrame>>)
    ensures
        tagged_run(fresh_state(), decoded).len() == min(
            leading_frames(decoded) as int,
            usize::MAX as int,
        ),
        forall|k: int|
            0 <= k < tagged_run(fresh_state(), decoded).len() ==> is_tagged(
                #[trigger] tagged_run(fresh_state(), decoded)[k],
                decoded[k],
                k,
            ),
{
    lemma_tagged_run_from(0, false, decoded);
}

/// The images, ordered so that their sequence numbers never decrease.
pub open spec fn sorted_by_number(images: Seq<Image>) -> bool {
    forall|i: int, j: int|
        0 <= i <= j < images.len() ==> #[trigger] images[i].number <= #[trigger] images[j].number
}

/// Everything the workers hold, one worker's list after another.
pub open spec fn gathered(parts: Seq<Vec<Image>>) -> Seq<Image> {
    parts.map_values(|p: Vec<Image>| p@).flatten()
}

/// Relies on `slice::sort_by_key` with the sequence number as key: the same
/// images, reordered so that their numbers do not decrease.
#[verifier::external_body]
fn sort_by_number(images: &mut Vec<Image>)
    ensures
        final(images)@.to_multiset() == old(images)@.to_multiset(),
        sorted_by_number(final(images)@),
{
    images.sort_by_key(|img| img.number);
}

/// Gathers what every worker converted, in whatever order they finished,
/// and orders it by sequence number.
pub fn collect_results(parts: Vec<Vec<Image>>) -> (ordered: Vec<Image>)
    ensures
        ordered@.to_multiset() == gathered(parts@).to_multiset(),
        sorted_by_number(ordered@),
{
    let ghost all_parts = parts@;
    let mut parts = parts;
    let mut all: Vec<Image> = Vec::new();
    while parts.len() > 0
        invariant
            all@.to_multiset().add(gathered(parts@).to_multiset()) == gathered(
                all_parts,
            ).to_multiset(),
        decreases parts.len(),
    {
        let ghost before = parts@;
        match parts.pop() {
            Some(mut part) => {
                proof {
                    let views = before.map_values(|p: Vec<Image>| p@);
                    assert(views =~= parts@.map_values(|p: Vec<Image>| p@).push(part@));
                    parts@.map_values(|p: Vec<Image>| p@).lemma_flatten_push(part@);
                    vstd::seq_lib::lemma_multiset_commutative(gathered(parts@), part@);
                    vstd::seq_lib::lemma_multiset_commutative(all@, part@);
                }
                all.append(&mut part);
            },
            None => {},
        }
    }
    proof {
        assert(parts@.map_values(|p: Vec<Image>| p@) =~= Seq::<Seq<Image>>::empty());
        assert(gathered(parts@) =~= Seq::<Image>::empty());
    }
    sort_by_number(&mut all);
    all
}

proof fn lemma_sorted_matches_numbered(frames: Seq<Image>, ordered: Seq<Image>, base: int)
    requires
        forall|k: int| 0 <= k < frames.len() ==> #[trigger] frames[k].number == base + k,
        ordered.to_multiset() == frames.to_multiset(),
        sorted_by_number(ordered),
    ensures
        ordered == frames,
    decreases frames.len(),
{
    vstd::seq_lib::to_multiset_len(frames);
    vstd::seq_lib::to_multiset_len(ordered);
    if frames.len() == 0 {
        assert(ordered =~= frames);
    } else {
        assert(frames.to_multiset().contains(ordered[0]));
        let i = choose|i: int| 0 <= i < frames.len() && frames[i] == ordered[0];
        assert(ordered.to_multiset().contains(frames[0]));
        let j = choose|j: int| 0 <= j < ordered.len() && ordered[j] == frames[0];
        assert(ordered[0].number <= ordered[j].number);
        assert(i == 0);
        vstd::seq_lib::to_multiset_remove(frames, 0);
        vstd::seq_lib::to_multiset_remove(ordered, 0);
        assert(frames.remove(0) =~= frames.drop_first());
        assert(ordered.remove(0) =~= ordered.drop_first());
        assert forall|k: int| 0 <= k < frames.drop_first().len() implies #[trigger] frames.drop_first()[k].number
            == base + 1 + k by {
            assert(frames.drop_first()[k] == frames[k + 1]);
        }
        lemma_sorted_matches_numbered(frames.drop_first(), ordered.drop_first(), base + 1);
        assert forall|k: int| 0 <= k < frames.len() implies ordered[k] == frames[k] by {
            if k > 0 {
                assert(ordered[k] == ordered.drop_first()[k - 1]);
                assert(frames[k] == frames.drop_first()[k - 1]);
            }
        }
        assert(ordered =~= frames);
    }
}

/// However the numbered, converted frames were shared out among the workers
/// and in whatever order each worker's list arrived, ordering what they hold
/// together by sequence number gives back exactly the frames in the order
/// the source yielded them.
pub proof fn lemma_collection_restores_source_order(
    frames: Seq<Image>,
    parts: Seq<Vec<Image>>,
    ordered: Seq<Image>,
)
    requires
        forall|k: int| 0 <= k < frames.len() ==> #[trigger] frames[k].number == k,
        gathered(parts).to_multiset() == frames.to_multiset(),
        ordered.to_multiset() == gathered(parts).to_multiset(),
        sorted_by_number(ordered),
    ensures
        ordered == frames,
{
    lemma_sorted_matches_numbered(frames, ordered, 0);
}

} // verus!
