//! What holds of a batcher over whole frames: how many batches a frame's
//! draw calls make, and how long a batch that is no longer drawn stays.

use vstd::prelude::*;
use crate::attachment::DrawAttachment;
use crate::batch::{lemma_idle_countdown, BatchView, DrawBatch};
use crate::batcher::{lemma_cleaned_distinct, BatcherView};
use crate::command::{drawn, lemma_commands_add, uploaded, CommandView};
use crate::instance::DrawInstance;

verus! {

/// One draw call as the batcher takes it.
pub struct DrawCall {
    pub label: Seq<char>,
    pub attachments: Seq<DrawAttachment>,
    pub instance: DrawInstance,
}

/// The keys that occur among `calls`.
pub open spec fn keys(calls: Seq<DrawCall>) -> Set<Seq<char>> {
    Set::new(
        |label: Seq<char>|
            exists|i: int| 0 <= i < calls.len() && (#[trigger] calls[i]).label == label,
    )
}

/// No call of any frame of `frames` is made under `label`.
pub open spec fn never_drawn(frames: Seq<Seq<DrawCall>>, label: Seq<char>) -> bool {
    forall|f: int, c: int|
        0 <= f < frames.len() && 0 <= c < frames[f].len() ==> (#[trigger] frames[f][c]).label
            != label
}

impl BatcherView {
    /// The batch for `label`, if there is one.
    pub open spec fn lookup(self, label: Seq<char>) -> Option<BatchView> {
        if self.contains(label) {
            Some(self.get(label))
        } else {
            None
        }
    }

    /// The keys of the batches.
    pub open spec fn key_set(self) -> Set<Seq<char>> {
        Set::new(|label: Seq<char>| self.contains(label))
    }

    /// All instances that wait in the batches, batch after batch.
    pub open spec fn waiting(self) -> Seq<DrawInstance>
        decreases self.batches.len(),
    {
        if self.batches.len() == 0 {
            Seq::empty()
        } else {
            BatcherView { batches: self.batches.drop_last() }.waiting()
                + self.batches.last().instances
        }
    }

    /// The batcher after the draw calls `calls`, in order.
    pub open spec fn added_all(self, calls: Seq<DrawCall>) -> BatcherView
        decreases calls.len(),
    {
        if calls.len() == 0 {
            self
        } else {
            let call = calls.last();
            self.added_all(calls.drop_last()).added(call.label, call.attachments, call.instance)
        }
    }

    /// The batcher after a frame: the calls are taken, every batch is
    /// written, and the expired batches are dropped.
    pub open spec fn frame(self, calls: Seq<DrawCall>) -> BatcherView {
        self.added_all(calls).written().cleaned()
    }

    /// The batcher after one frame for each element of `frames`, in order.
    pub open spec fn frames(self, frames: Seq<Seq<DrawCall>>) -> BatcherView
        decreases frames.len(),
    {
        if frames.len() == 0 {
            self
        } else {
            self.frames(frames.drop_last()).frame(frames.last())
        }
    }
}

/// What a run of commands uploads and draws when each of them does
/// neither.
proof fn lemma_commands_idle(commands: Seq<CommandView>)
    requires
        forall|i: int|
            0 <= i < commands.len() ==> (#[trigger] commands[i]).uploads().len() == 0
                && commands[i].draws() == 0,
    ensures
        uploaded(commands) == Seq::<DrawInstance>::empty(),
        drawn(commands) == 0,
    decreases commands.len(),
{
    if commands.len() > 0 {
        lemma_commands_idle(commands.drop_last());
        assert(commands.last() == commands[commands.len() - 1]);
        assert(uploaded(commands) =~= Seq::<DrawInstance>::empty());
    }
}

/// The commands of one batch upload exactly the instances that wait in it,
/// in order, and draw exactly as many.
pub proof fn lemma_batch_is_drawn_once(batch: BatchView)
    requires
        batch.count() <= u32::MAX,
    ensures
        uploaded(batch.draw_commands()) == batch.instances,
        drawn(batch.draw_commands()) == batch.count(),
{
    if batch.count() == 0 {
        assert(batch.instances =~= Seq::empty());
    } else {
        let allocate = if batch.outgrown() {
            seq![CommandView::Allocate { label: batch.label, size: batch.required() as u64 }]
        } else {
            Seq::empty()
        };
        let upload = seq![CommandView::Upload { label: batch.label, instances: batch.instances }];
        let attach = batch.attach_commands();
        let draw = seq![
            CommandView::SetInstances { slot: crate::batch::INSTANCE_SLOT, label: batch.label },
            CommandView::DrawIndexed {
                indices: crate::quad::Quad::NUM_INDICES,
                count: batch.count() as u32,
            },
        ];
        assert(batch.draw_commands() == allocate + upload + attach + draw);
        lemma_commands_idle(allocate);
        lemma_commands_idle(attach);
        reveal_with_fuel(uploaded, 3);
        reveal_with_fuel(drawn, 3);
        assert(upload.drop_last() =~= Seq::empty());
        assert(uploaded(upload) =~= batch.instances);
        assert(drawn(upload) == 0);
        assert(draw.drop_last() =~= seq![
            CommandView::SetInstances { slot: crate::batch::INSTANCE_SLOT, label: batch.label },
        ]);
        assert(draw.drop_last().drop_last() =~= Seq::empty());
        assert(uploaded(draw) =~= Seq::<DrawInstance>::empty());
        assert(drawn(draw) == batch.count());
        lemma_commands_add(allocate, upload);
        lemma_commands_add(allocate + upload, attach);
        lemma_commands_add(allocate + upload + attach, draw);
        assert(uploaded(batch.draw_commands()) =~= batch.instances);
    }
}

/// Every instance is drawn once: the commands that draw the batches upload
/// exactly the instances that wait in them, batch after batch and in call
/// order within a batch, and draw exactly as many; afterwards none waits.
pub proof fn lemma_every_instance_is_drawn_once(batcher: BatcherView)
    requires
        forall|i: int|
            0 <= i < batcher.batches.len() ==> (#[trigger] batcher.batches[i]).count() <= u32::MAX,
    ensures
        uploaded(batcher.draw_commands()) == batcher.waiting(),
        drawn(batcher.draw_commands()) == batcher.waiting().len(),
        batcher.written().waiting() == Seq::<DrawInstance>::empty(),
    decreases batcher.batches.len(),
{
    if batcher.batches.len() > 0 {
        let rest = BatcherView { batches: batcher.batches.drop_last() };
        let last = batcher.batches.last();
        assert forall|i: int| 0 <= i < rest.batches.len() implies (
        #[trigger] rest.batches[i]).count() <= u32::MAX by {
            assert(rest.batches[i] == batcher.batches[i]);
        }
        lemma_every_instance_is_drawn_once(rest);
        lemma_batch_is_drawn_once(last);
        lemma_commands_add(rest.draw_commands(), last.draw_commands());
        assert(batcher.written().batches.drop_last() =~= rest.written().batches);
        assert(batcher.written().waiting() =~= Seq::<DrawInstance>::empty());
    }
}

/// Where keys are distinct, the batch at a position is the batch for its
/// key.
pub proof fn lemma_lookup_at(batcher: BatcherView, i: int)
    requires
        batcher.distinct(),
        0 <= i < batcher.batches.len(),
    ensures
        batcher.contains(batcher.batches[i].label),
        batcher.index(batcher.batches[i].label) == i,
        batcher.lookup(batcher.batches[i].label) == Some(batcher.batches[i]),
{
    let label = batcher.batches[i].label;
    let j = batcher.index(label);
    assert(0 <= j < batcher.batches.len() && batcher.batches[j].label == label);
    if j < i {
        assert(batcher.batches[j].label != batcher.batches[i].label);
    } else if i < j {
        assert(batcher.batches[i].label != batcher.batches[j].label);
    }
}

/// A draw call changes the batch of its key and no other: that batch gets
/// the instance, or is made for it; all other keys find what they found
/// before.
pub proof fn lemma_added_lookup(
    batcher: BatcherView,
    label: Seq<char>,
    attachments: Seq<DrawAttachment>,
    instance: DrawInstance,
    other: Seq<char>,
)
    requires
        batcher.distinct(),
    ensures
        batcher.added(label, attachments, instance).distinct(),
        batcher.added(label, attachments, instance).lookup(other) == if other == label {
            Some(
                match batcher.lookup(label) {
                    Some(batch) => batch.added(instance),
                    None => BatchView::new(label, attachments, seq![instance]),
                },
            )
        } else {
            batcher.lookup(other)
        },
        batcher.added(label, attachments, instance).len() == if batcher.contains(label) {
            batcher.len()
        } else {
            batcher.len() + 1
        },
{
    let after = batcher.added(label, attachments, instance);
    if batcher.contains(label) {
        let i = batcher.index(label);
        assert(0 <= i < batcher.batches.len() && batcher.batches[i].label == label);
        assert forall|j: int| 0 <= j < after.batches.len() implies (
        #[trigger] after.batches[j]).label == batcher.batches[j].label by {}
        assert(after.distinct()) by {
            assert forall|a: int, b: int| 0 <= a < b < after.batches.len() implies (
            #[trigger] after.batches[a]).label != (#[trigger] after.batches[b]).label by {
                assert(batcher.batches[a].label != batcher.batches[b].label);
            }
        }
        if batcher.contains(other) {
            let k = batcher.index(other);
            assert(0 <= k < batcher.batches.len() && batcher.batches[k].label == other);
            assert(after.batches[k].label == other);
            lemma_lookup_at(after, k);
            lemma_lookup_at(batcher, k);
        } else {
            if after.contains(other) {
                let k = after.index(other);
                assert(0 <= k < after.batches.len() && after.batches[k].label == other);
                assert(batcher.batches[k].label == other);
            }
        }
    } else {
        let made = BatchView::new(label, attachments, seq![instance]);
        let n = batcher.batches.len() as int;
        assert(after.batches[n] == made);
        assert(after.distinct()) by {
            assert forall|a: int, b: int| 0 <= a < b < after.batches.len() implies (
            #[trigger] after.batches[a]).label != (#[trigger] after.batches[b]).label by {
                assert(after.batches[a] == batcher.batches[a]);
                if b < n {
                    assert(after.batches[b] == batcher.batches[b]);
                    assert(batcher.batches[a].label != batcher.batches[b].label);
                }
            }
        }
        if other == label {
            lemma_lookup_at(after, n);
        } else if batcher.contains(other) {
            let k = batcher.index(other);
            assert(0 <= k < n && batcher.batches[k].label == other);
            assert(after.batches[k] == batcher.batches[k]);
            lemma_lookup_at(after, k);
            lemma_lookup_at(batcher, k);
        } else {
            if after.contains(other) {
                let k = after.index(other);
                assert(0 <= k < after.batches.len() && after.batches[k].label == other);
                if k < n {
                    assert(batcher.batches[k] == after.batches[k]);
                }
            }
        }
    }
}

/// Writing every batch writes the batch of each key.
pub proof fn lemma_written_lookup(batcher: BatcherView, label: Seq<char>)
    requires
        batcher.distinct(),
    ensures
        batcher.written().distinct(),
        batcher.written().len() == batcher.len(),
        batcher.written().lookup(label) == match batcher.lookup(label) {
            Some(batch) => Some(batch.written()),
            None => None,
        },
{
    let after = batcher.written();
    assert forall|j: int| 0 <= j < after.batches.len() implies (#[trigger] after.batches[j]).label
        == batcher.batches[j].label by {}
    assert(after.distinct()) by {
        assert forall|a: int, b: int| 0 <= a < b < after.batches.len() implies (
        #[trigger] after.batches[a]).label != (#[trigger] after.batches[b]).label by {
            assert(batcher.batches[a].label != batcher.batches[b].label);
        }
    }
    if batcher.contains(label) {
        let k = batcher.index(label);
        assert(0 <= k < batcher.batches.len() && batcher.batches[k].label == label);
        assert(after.batches[k].label == label);
        lemma_lookup_at(after, k);
        lemma_lookup_at(batcher, k);
    } else {
        if after.contains(label) {
            let k = after.index(label);
            assert(0 <= k < after.batches.len() && after.batches[k].label == label);
            assert(batcher.batches[k].label == label);
        }
    }
}

/// The cleanup drops exactly the expired batches: a key finds afterwards
/// what it found before, unless that had expired.
pub proof fn lemma_cleaned_lookup(batcher: BatcherView, label: Seq<char>)
    requires
        batcher.distinct(),
    ensures
        batcher.cleaned().distinct(),
        batcher.cleaned().lookup(label) == match batcher.lookup(label) {
            Some(batch) => if batch.expired() {
                None
            } else {
                Some(batch)
            },
            None => None,
        },
{
    let live = |batch: BatchView| !batch.expired();
    let after = batcher.cleaned();
    lemma_cleaned_distinct(batcher);
    if after.contains(label) {
        let k = after.index(label);
        assert(0 <= k < after.batches.len() && after.batches[k].label == label);
        lemma_lookup_at(after, k);
        batcher.batches.lemma_filter_pred(live, k);
        assert(after.batches.contains(after.batches[k]));
        batcher.batches.lemma_filter_contains_rev(live, after.batches[k]);
        let j = choose|j: int|
            0 <= j < batcher.batches.len() && batcher.batches[j] == after.batches[k];
        lemma_lookup_at(batcher, j);
    } else if batcher.contains(label) {
        let j = batcher.index(label);
        assert(0 <= j < batcher.batches.len() && batcher.batches[j].label == label);
        lemma_lookup_at(batcher, j);
        if !batcher.batches[j].expired() {
            batcher.batches.lemma_filter_contains(live, j);
            let k = choose|k: int|
                0 <= k < after.batches.len() && after.batches[k] == batcher.batches[j];
            assert(after.batches[k].label == label);
        }
    }
}

/// A run of draw calls leaves the batches of the keys it does not name as
/// they were, and leaves a batch with at least one instance waiting for
/// each key it names.
pub proof fn lemma_added_all_lookup(batcher: BatcherView, calls: Seq<DrawCall>, label: Seq<char>)
    requires
        batcher.distinct(),
    ensures
        batcher.added_all(calls).distinct(),
        !keys(calls).contains(label) ==> batcher.added_all(calls).lookup(label) == batcher.lookup(
            label,
        ),
        keys(calls).contains(label) ==> batcher.added_all(calls).contains(label)
            && batcher.added_all(calls).get(label).count() > 0,
    decreases calls.len(),
{
    if calls.len() > 0 {
        let call = calls.last();
        let rest = calls.drop_last();
        let before = batcher.added_all(rest);
        lemma_added_all_lookup(batcher, rest, label);
        lemma_added_lookup(before, call.label, call.attachments, call.instance, label);
        if keys(calls).contains(label) {
            let i = choose|i: int| 0 <= i < calls.len() && (#[trigger] calls[i]).label == label;
            if i < rest.len() {
                assert(rest[i].label == label);
            }
        } else {
            assert(call.label != label);
            if keys(rest).contains(label) {
                let i = choose|i: int| 0 <= i < rest.len() && (#[trigger] rest[i]).label == label;
                assert(calls[i].label == label);
            }
        }
    }
}

/// A batcher has one batch for each of its keys.
pub proof fn lemma_one_batch_per_key(batcher: BatcherView)
    requires
        batcher.distinct(),
    ensures
        batcher.key_set().finite(),
        batcher.key_set().len() == batcher.len(),
{
    let labels = batcher.labels();
    assert(labels.no_duplicates()) by {
        assert forall|i: int, j: int|
            0 <= i < labels.len() && 0 <= j < labels.len() && i != j implies labels[i]
            != labels[j] by {
            if i < j {
                assert(batcher.batches[i].label != batcher.batches[j].label);
            } else {
                assert(batcher.batches[j].label != batcher.batches[i].label);
            }
        }
    }
    labels.unique_seq_to_set();
    assert(labels.to_set() =~= batcher.key_set()) by {
        let key_set = batcher.key_set();
        assert forall|label: Seq<char>| labels.to_set().contains(label) implies key_set.contains(
            label,
        ) by {
            let i = choose|i: int| 0 <= i < labels.len() && labels[i] == label;
            assert(batcher.batches[i].label == label);
        }
        assert forall|label: Seq<char>| key_set.contains(label) implies labels.to_set().contains(
            label,
        ) by {
            let i = batcher.index(label);
            assert(0 <= i < batcher.batches.len() && batcher.batches[i].label == label);
            assert(labels[i] == label);
        }
    }
}

/// Draw calls only ever add batches: after a run of calls the batcher has a
/// batch for each key it had one for and for each key named by a call, and
/// for no other.
pub proof fn lemma_added_all_keys(batcher: BatcherView, calls: Seq<DrawCall>)
    requires
        batcher.distinct(),
    ensures
        batcher.added_all(calls).distinct(),
        batcher.added_all(calls).key_set() == batcher.key_set().union(keys(calls)),
        batcher.added_all(calls).key_set().finite(),
        batcher.added_all(calls).len() == batcher.key_set().union(keys(calls)).len(),
{
    let added = batcher.added_all(calls);
    assert forall|label: Seq<char>| #![auto]
        added.key_set().contains(label) == batcher.key_set().union(keys(calls)).contains(
            label,
        ) by {
        lemma_added_all_lookup(batcher, calls, label);
    }
    assert(added.key_set() =~= batcher.key_set().union(keys(calls)));
    lemma_added_all_lookup(batcher, calls, Seq::empty());
    lemma_one_batch_per_key(added);
}

/// After the draw calls of a frame, a batcher that was empty before has
/// exactly one batch for each key that occurs among the calls, and the end
/// of the frame drops none of them.
pub proof fn lemma_batches_are_keys(calls: Seq<DrawCall>)
    ensures
        BatcherView::empty().added_all(calls).key_set() == keys(calls),
        BatcherView::empty().frame(calls).key_set() == keys(calls),
        keys(calls).finite(),
        BatcherView::empty().added_all(calls).len() == keys(calls).len(),
        BatcherView::empty().frame(calls).len() == keys(calls).len(),
{
    let empty = BatcherView::empty();
    let added = empty.added_all(calls);
    let written = added.written();
    let ended = empty.frame(calls);
    assert forall|label: Seq<char>|
        #![auto]
        added.key_set().contains(label) == keys(calls).contains(label)
            && ended.key_set().contains(label) == keys(calls).contains(label) by {
        lemma_added_all_lookup(empty, calls, label);
        lemma_written_lookup(added, label);
        lemma_cleaned_lookup(written, label);
    }
    assert(added.key_set() =~= keys(calls));
    assert(ended.key_set() =~= keys(calls));
    lemma_added_all_lookup(empty, calls, Seq::empty());
    lemma_written_lookup(added, Seq::empty());
    lemma_cleaned_lookup(written, Seq::empty());
    lemma_one_batch_per_key(added);
    lemma_one_batch_per_key(ended);
}

/// The number of batches that a frame's draw calls make does not depend on
/// the order of the calls, nor on how often a key is drawn: two runs of
/// calls that name the same keys leave the same number of batches.
pub proof fn lemma_grouping_ignores_order(first: Seq<DrawCall>, second: Seq<DrawCall>)
    requires
        keys(first) == keys(second),
    ensures
        BatcherView::empty().frame(first).len() == BatcherView::empty().frame(second).len(),
        BatcherView::empty().frame(first).key_set() == BatcherView::empty().frame(
            second,
        ).key_set(),
{
    lemma_batches_are_keys(first);
    lemma_batches_are_keys(second);
}

/// A frame that does not draw under `label` does to the batch of that key
/// what an idle frame does to a batch: with nothing waiting it loses one
/// frame of lifetime, and it is dropped when none is left.
pub proof fn lemma_frame_without(batcher: BatcherView, calls: Seq<DrawCall>, label: Seq<char>)
    requires
        batcher.distinct(),
        !keys(calls).contains(label),
    ensures
        batcher.frame(calls).distinct(),
        batcher.frame(calls).lookup(label) == match batcher.lookup(label) {
            Some(batch) => if batch.written().expired() {
                None
            } else {
                Some(batch.written())
            },
            None => None,
        },
{
    let added = batcher.added_all(calls);
    lemma_added_all_lookup(batcher, calls, label);
    lemma_written_lookup(added, label);
    lemma_cleaned_lookup(added.written(), label);
}

/// A frame that draws under `label` leaves a batch for that key with its
/// whole lifetime ahead and nothing waiting, however close to being dropped
/// the batch was before.
pub proof fn lemma_frame_with(batcher: BatcherView, calls: Seq<DrawCall>, label: Seq<char>)
    requires
        batcher.distinct(),
        keys(calls).contains(label),
    ensures
        batcher.frame(calls).distinct(),
        batcher.frame(calls).contains(label),
        batcher.frame(calls).get(label).lifetime == DrawBatch::LIFETIME,
        batcher.frame(calls).get(label).count() == 0,
{
    let added = batcher.added_all(calls);
    lemma_added_all_lookup(batcher, calls, label);
    lemma_written_lookup(added, label);
    lemma_cleaned_lookup(added.written(), label);
}

/// A batch that is drawn in one frame and then never again is still there
/// after every run of fewer idle frames than its lifetime, with one frame
/// of lifetime less for each, and is gone after as many idle frames as its
/// lifetime or more, whatever is drawn under other keys meanwhile.
pub proof fn lemma_eviction_timing(
    batcher: BatcherView,
    frames: Seq<Seq<DrawCall>>,
    label: Seq<char>,
)
    requires
        batcher.distinct(),
        batcher.contains(label),
        batcher.get(label).count() == 0,
        batcher.get(label).lifetime > 0,
        never_drawn(frames, label),
    ensures
        batcher.frames(frames).distinct(),
        frames.len() < batcher.get(label).lifetime ==> batcher.frames(frames).lookup(label)
            == Some(batcher.get(label).idle(frames.len())),
        frames.len() < batcher.get(label).lifetime ==> batcher.frames(frames).get(label).lifetime
            == batcher.get(label).lifetime - frames.len(),
        frames.len() >= batcher.get(label).lifetime ==> !batcher.frames(frames).contains(label),
    decreases frames.len(),
{
    let batch = batcher.get(label);
    lemma_idle_countdown(batch, frames.len());
    if frames.len() > 0 {
        let rest = frames.drop_last();
        let calls = frames.last();
        let before = batcher.frames(rest);
        assert(never_drawn(rest, label)) by {
            assert forall|f: int, c: int|
                0 <= f < rest.len() && 0 <= c < rest[f].len() implies (#[trigger] rest[f][c]).label
                != label by {
                assert(frames[f][c].label != label);
            }
        }
        assert(!keys(calls).contains(label)) by {
            if keys(calls).contains(label) {
                let c = choose|c: int| 0 <= c < calls.len() && (#[trigger] calls[c]).label == label;
                assert(frames[frames.len() - 1][c].label == label);
            }
        }
        lemma_eviction_timing(batcher, rest, label);
        lemma_frame_without(before, calls, label);
        lemma_idle_countdown(batch, rest.len());
        if rest.len() < batch.lifetime {
            let idle = batch.idle(rest.len());
            assert(idle.added_all(Seq::empty()).instances =~= idle.instances);
            assert(idle.added_all(Seq::empty()) == idle);
            assert(batch.idle(frames.len()) == idle.written());
        }
    }
}

/// A batch that has just been drawn is still there after nine frames in
/// which it is not drawn, and the cleanup of the tenth such frame drops it.
pub proof fn lemma_evicted_after_lifetime(
    batcher: BatcherView,
    frames: Seq<Seq<DrawCall>>,
    label: Seq<char>,
)
    requires
        batcher.distinct(),
        batcher.contains(label),
        batcher.get(label).count() == 0,
        batcher.get(label).lifetime == DrawBatch::LIFETIME,
        never_drawn(frames, label),
    ensures
        batcher.frames(frames).contains(label) <==> frames.len() < DrawBatch::LIFETIME,
{
    lemma_eviction_timing(batcher, frames, label);
}

} // verus!
