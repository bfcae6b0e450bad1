//! The instance buffers as the commands leave them.
//!
//! The library never holds a GPU buffer; it tells its caller when to make
//! one, when to fill it and when to drop it. This module follows the
//! buffers through the commands and shows that a caller who carries the
//! commands out in order always finds the buffer a command names, and
//! always finds it large enough for what is uploaded.

use vstd::prelude::*;
use crate::attachment::DrawAttachment;
use crate::batch::{bytes_for, BatchView, INSTANCE_SLOT};
use crate::batcher::BatcherView;
use crate::command::CommandView;
use crate::draw::DrawView;
use crate::frames::{
    lemma_added_lookup, lemma_cleaned_lookup, lemma_lookup_at, lemma_written_lookup,
};
use crate::instance::DrawInstance;
use crate::quad::Quad;

verus! {

/// The instance buffers that exist, each under the label of its batch and
/// with its size in bytes.
pub type Buffers = Map<Seq<char>, nat>;

impl CommandView {
    /// Whether the command can be carried out with the buffers at hand: a
    /// buffer that is bound, filled or dropped exists, and a buffer that is
    /// filled has room for the instances.
    pub open spec fn fits(self, buffers: Buffers) -> bool {
        match self {
            CommandView::Upload { label, instances } => buffers.contains_key(label) && bytes_for(
                instances.len(),
            ) <= buffers[label],
            CommandView::SetInstances { label, .. } => buffers.contains_key(label),
            CommandView::Release { label } => buffers.contains_key(label),
            _ => true,
        }
    }

    /// The buffers after the command has been carried out.
    pub open spec fn applied(self, buffers: Buffers) -> Buffers {
        match self {
            CommandView::Allocate { label, size } => buffers.insert(label, size as nat),
            CommandView::Release { label } => buffers.remove(label),
            _ => buffers,
        }
    }
}

/// The buffers after `commands` have been carried out in order.
pub open spec fn carried_out(buffers: Buffers, commands: Seq<CommandView>) -> Buffers
    decreases commands.len(),
{
    if commands.len() == 0 {
        buffers
    } else {
        commands.last().applied(carried_out(buffers, commands.drop_last()))
    }
}

/// Whether `commands` can be carried out in order: each fits the buffers
/// that the ones before it have left.
pub open spec fn can_carry_out(buffers: Buffers, commands: Seq<CommandView>) -> bool
    decreases commands.len(),
{
    if commands.len() == 0 {
        true
    } else {
        can_carry_out(buffers, commands.drop_last()) && commands.last().fits(
            carried_out(buffers, commands.drop_last()),
        )
    }
}

/// The buffers after the command a draw call may return.
pub open spec fn after(buffers: Buffers, created: Option<CommandView>) -> Buffers {
    match created {
        Some(command) => command.applied(buffers),
        None => buffers,
    }
}

/// Whether the buffers are those of the batches: one for each batch, under
/// its label and of its capacity, and no other.
pub open spec fn in_step(buffers: Buffers, batcher: BatcherView) -> bool {
    &&& forall|label: Seq<char>| buffers.contains_key(label) <==> batcher.contains(label)
    &&& forall|i: int|
        0 <= i < batcher.batches.len() ==> buffers[(#[trigger] batcher.batches[i]).label]
            == batcher.batches[i].size
}

/// Carrying out two runs of commands one after the other is carrying out
/// the first and then, with the buffers it leaves, the second.
pub proof fn lemma_carry_add(buffers: Buffers, first: Seq<CommandView>, second: Seq<CommandView>)
    ensures
        carried_out(buffers, first + second) == carried_out(carried_out(buffers, first), second),
        can_carry_out(buffers, first + second) == (can_carry_out(buffers, first) && can_carry_out(
            carried_out(buffers, first),
            second,
        )),
    decreases second.len(),
{
    if second.len() == 0 {
        assert(first + second =~= first);
    } else {
        lemma_carry_add(buffers, first, second.drop_last());
        assert((first + second).drop_last() =~= first + second.drop_last());
        assert((first + second).last() == second.last());
    }
}

/// Commands that neither need nor change a buffer can always be carried
/// out and leave the buffers as they are.
proof fn lemma_carry_idle(buffers: Buffers, commands: Seq<CommandView>)
    requires
        forall|i: int|
            0 <= i < commands.len() ==> (#[trigger] commands[i]).fits(buffers)
                && commands[i].applied(buffers) == buffers,
    ensures
        can_carry_out(buffers, commands),
        carried_out(buffers, commands) == buffers,
    decreases commands.len(),
{
    if commands.len() > 0 {
        lemma_carry_idle(buffers, commands.drop_last());
        assert(commands.last() == commands[commands.len() - 1]);
    }
}

/// A batch whose buffer exists at the batch's capacity can be drawn, and
/// drawing it leaves that buffer at the capacity the batch has after the
/// write and every other buffer alone.
pub proof fn lemma_batch_can_be_drawn(buffers: Buffers, batch: BatchView)
    requires
        batch.count() <= u32::MAX,
        buffers.contains_key(batch.label),
        buffers[batch.label] == batch.size,
    ensures
        can_carry_out(buffers, batch.draw_commands()),
        carried_out(buffers, batch.draw_commands()) == buffers.insert(
            batch.label,
            batch.written().size,
        ),
{
    if batch.count() == 0 {
        assert(buffers.insert(batch.label, batch.written().size) =~= buffers);
    } else {
        let allocate = if batch.outgrown() {
            seq![CommandView::Allocate { label: batch.label, size: batch.required() as u64 }]
        } else {
            Seq::empty()
        };
        let upload = seq![CommandView::Upload { label: batch.label, instances: batch.instances }];
        let attach = batch.attach_commands();
        let draw = seq![
            CommandView::SetInstances { slot: INSTANCE_SLOT, label: batch.label },
            CommandView::DrawIndexed { indices: Quad::NUM_INDICES, count: batch.count() as u32 },
        ];
        assert(batch.draw_commands() == allocate + upload + attach + draw);
        let grown = buffers.insert(batch.label, batch.written().size);
        reveal_with_fuel(carried_out, 3);
        reveal_with_fuel(can_carry_out, 3);
        assert(can_carry_out(buffers, allocate) && carried_out(buffers, allocate) == grown) by {
            if batch.outgrown() {
                assert(allocate.drop_last() =~= Seq::empty());
                assert(batch.required() as u64 as nat == batch.required());
            } else {
                assert(grown =~= buffers);
            }
        }
        assert(can_carry_out(grown, upload) && carried_out(grown, upload) == grown) by {
            assert(upload.drop_last() =~= Seq::empty());
        }
        lemma_carry_idle(grown, attach);
        assert(can_carry_out(grown, draw) && carried_out(grown, draw) == grown) by {
            assert(draw.drop_last() =~= seq![
                CommandView::SetInstances { slot: INSTANCE_SLOT, label: batch.label },
            ]);
            assert(draw.drop_last().drop_last() =~= Seq::empty());
        }
        lemma_carry_add(buffers, allocate, upload);
        lemma_carry_add(buffers, allocate + upload, attach);
        lemma_carry_add(buffers, allocate + upload + attach, draw);
    }
}

/// Whether each of `batches` has its buffer, at its capacity.
pub open spec fn covers(buffers: Buffers, batches: Seq<BatchView>) -> bool {
    forall|i: int|
        0 <= i < batches.len() ==> buffers.contains_key((#[trigger] batches[i]).label)
            && buffers[batches[i].label] == batches[i].size
}

/// Batches that have their buffers can be drawn one after the other.
/// Afterwards the same buffers exist; those of the batches are at the
/// capacities the batches have after the write, and all others are
/// untouched.
proof fn lemma_batches_can_be_drawn(buffers: Buffers, batcher: BatcherView)
    requires
        batcher.distinct(),
        covers(buffers, batcher.batches),
        forall|i: int|
            0 <= i < batcher.batches.len() ==> (#[trigger] batcher.batches[i]).count() <= u32::MAX,
    ensures
        can_carry_out(buffers, batcher.draw_commands()),
        carried_out(buffers, batcher.draw_commands()).dom() == buffers.dom(),
        covers(carried_out(buffers, batcher.draw_commands()), batcher.written().batches),
        forall|label: Seq<char>|
            !batcher.contains(label) ==> carried_out(buffers, batcher.draw_commands())[label]
                == buffers[label],
    decreases batcher.batches.len(),
{
    let after = carried_out(buffers, batcher.draw_commands());
    if batcher.batches.len() == 0 {
        assert(after.dom() =~= buffers.dom());
    } else {
        let rest = BatcherView { batches: batcher.batches.drop_last() };
        let last = batcher.batches.last();
        let n = rest.batches.len() as int;
        assert forall|i: int| 0 <= i < n implies rest.batches[i] == batcher.batches[i] by {}
        assert(rest.distinct()) by {
            assert forall|i: int, j: int| 0 <= i < j < n implies (#[trigger] rest.batches[i]).label
                != (#[trigger] rest.batches[j]).label by {
                assert(batcher.batches[i].label != batcher.batches[j].label);
            }
        }
        assert(covers(buffers, rest.batches)) by {
            assert forall|i: int| 0 <= i < n implies buffers.contains_key(
                (#[trigger] rest.batches[i]).label,
            ) && buffers[rest.batches[i].label] == rest.batches[i].size by {
                assert(rest.batches[i] == batcher.batches[i]);
            }
        }
        assert forall|i: int| 0 <= i < n implies (#[trigger] rest.batches[i]).count()
            <= u32::MAX by {
            assert(rest.batches[i] == batcher.batches[i]);
        }
        lemma_batches_can_be_drawn(buffers, rest);
        let before = carried_out(buffers, rest.draw_commands());
        assert(last == batcher.batches[n]);
        assert(!rest.contains(last.label)) by {
            if rest.contains(last.label) {
                let i = rest.index(last.label);
                assert(0 <= i < n && rest.batches[i].label == last.label);
                assert(batcher.batches[i].label != batcher.batches[n].label);
            }
        }
        assert(before.contains_key(last.label)) by {
            assert(buffers.dom().contains(last.label));
        }
        lemma_batch_can_be_drawn(before, last);
        lemma_carry_add(buffers, rest.draw_commands(), last.draw_commands());
        assert(after == before.insert(last.label, last.written().size));
        assert(after.dom() =~= buffers.dom());
        assert(covers(after, batcher.written().batches)) by {
            let written = batcher.written().batches;
            assert forall|i: int| 0 <= i < written.len() implies after.contains_key(
                (#[trigger] written[i]).label,
            ) && after[written[i].label] == written[i].size by {
                if i < n {
                    assert(rest.written().batches[i] == batcher.written().batches[i]);
                    assert(batcher.batches[i].label != batcher.batches[n].label);
                }
            }
        }
        assert forall|label: Seq<char>| !batcher.contains(label) implies after[label]
            == buffers[label] by {
            assert(label != last.label);
            if rest.contains(label) {
                let i = rest.index(label);
                assert(0 <= i < n && rest.batches[i].label == label);
                assert(batcher.batches[i].label == label);
            }
        }
    }
}

/// If the buffers are those of the batches, the batches can be written and
/// drawn, and afterwards the buffers are those of the written batches.
pub proof fn lemma_write_keeps_step(buffers: Buffers, batcher: BatcherView)
    requires
        batcher.distinct(),
        in_step(buffers, batcher),
        forall|i: int|
            0 <= i < batcher.batches.len() ==> (#[trigger] batcher.batches[i]).count() <= u32::MAX,
    ensures
        can_carry_out(buffers, batcher.draw_commands()),
        in_step(carried_out(buffers, batcher.draw_commands()), batcher.written()),
{
    assert(covers(buffers, batcher.batches)) by {
        assert forall|i: int| 0 <= i < batcher.batches.len() implies buffers.contains_key(
            (#[trigger] batcher.batches[i]).label,
        ) by {
            assert(batcher.contains(batcher.batches[i].label));
        }
    }
    lemma_batches_can_be_drawn(buffers, batcher);
    let after = carried_out(buffers, batcher.draw_commands());
    assert forall|label: Seq<char>| after.contains_key(label) <==> batcher.written().contains(
        label,
    ) by {
        lemma_written_lookup(batcher, label);
        assert(after.dom().contains(label) == buffers.dom().contains(label));
    }
}

/// A draw call keeps the buffers in step with the batches, once the command
/// it returns has been carried out.
pub proof fn lemma_add_keeps_step(
    buffers: Buffers,
    batcher: BatcherView,
    label: Seq<char>,
    attachments: Seq<DrawAttachment>,
    instance: DrawInstance,
)
    requires
        batcher.distinct(),
        in_step(buffers, batcher),
    ensures
        in_step(
            after(buffers, batcher.added_command(label)),
            batcher.added(label, attachments, instance),
        ),
{
    let added = batcher.added(label, attachments, instance);
    let then = after(buffers, batcher.added_command(label));
    assert forall|other: Seq<char>| then.contains_key(other) <==> added.contains(other) by {
        lemma_added_lookup(batcher, label, attachments, instance, other);
    }
    assert forall|i: int| 0 <= i < added.batches.len() implies then[(
    #[trigger] added.batches[i]).label] == added.batches[i].size by {
        if batcher.contains(label) {
            let k = batcher.index(label);
            assert(0 <= k < batcher.batches.len() && batcher.batches[k].label == label);
            assert(added.batches[i].label == batcher.batches[i].label);
            assert(added.batches[i].size == batcher.batches[i].size);
        } else if i < batcher.batches.len() {
            assert(added.batches[i] == batcher.batches[i]);
            assert(batcher.contains(batcher.batches[i].label));
        }
    }
}

/// Whether the batch for `label` exists and has expired.
pub open spec fn is_released(batcher: BatcherView, label: Seq<char>) -> bool {
    batcher.contains(label) && batcher.get(label).expired()
}

/// The buffers of expired batches can be released. Afterwards exactly the
/// buffers of those batches are gone, and the others are as they were.
proof fn lemma_expired_can_be_released(buffers: Buffers, batcher: BatcherView)
    requires
        batcher.distinct(),
        forall|i: int|
            0 <= i < batcher.batches.len() ==> buffers.contains_key(
                (#[trigger] batcher.batches[i]).label,
            ),
    ensures
        can_carry_out(buffers, batcher.release_commands()),
        forall|label: Seq<char>|
            #[trigger] carried_out(buffers, batcher.release_commands()).dom().contains(label) <==> (
            buffers.dom().contains(label) && !is_released(batcher, label)),
        forall|label: Seq<char>|
            #[trigger] carried_out(buffers, batcher.release_commands()).dom().contains(label)
                ==> carried_out(buffers, batcher.release_commands())[label] == buffers[label],
    decreases batcher.batches.len(),
{
    let dead = |batch: BatchView| batch.expired();
    let after = carried_out(buffers, batcher.release_commands());
    if batcher.batches.len() == 0 {
        reveal(Seq::filter);
        assert(batcher.release_commands() =~= Seq::empty());
    } else {
        let rest = BatcherView { batches: batcher.batches.drop_last() };
        let last = batcher.batches.last();
        let n = rest.batches.len() as int;
        assert forall|i: int| 0 <= i < n implies rest.batches[i] == batcher.batches[i] by {}
        assert(rest.distinct()) by {
            assert forall|i: int, j: int| 0 <= i < j < n implies (#[trigger] rest.batches[i]).label
                != (#[trigger] rest.batches[j]).label by {
                assert(batcher.batches[i].label != batcher.batches[j].label);
            }
        }
        assert forall|i: int| 0 <= i < n implies buffers.contains_key(
            (#[trigger] rest.batches[i]).label,
        ) by {
            assert(rest.batches[i] == batcher.batches[i]);
        }
        lemma_expired_can_be_released(buffers, rest);
        let before = carried_out(buffers, rest.release_commands());
        assert(batcher.batches =~= rest.batches.push(last));
        rest.batches.lemma_filter_push(last, dead);
        lemma_lookup_at(batcher, n);
        assert(!rest.contains(last.label)) by {
            if rest.contains(last.label) {
                let i = rest.index(last.label);
                assert(0 <= i < n && rest.batches[i].label == last.label);
                assert(batcher.batches[i].label != batcher.batches[n].label);
            }
        }
        assert forall|label: Seq<char>| label != last.label implies (batcher.contains(label)
            <==> rest.contains(label)) && (rest.contains(label) ==> batcher.get(label)
            == rest.get(label)) by {
            if rest.contains(label) {
                let i = rest.index(label);
                assert(0 <= i < n && rest.batches[i].label == label);
                assert(batcher.batches[i].label == label);
                lemma_lookup_at(batcher, i);
                lemma_lookup_at(rest, i);
            }
            if batcher.contains(label) {
                let i = batcher.index(label);
                assert(0 <= i < batcher.batches.len() && batcher.batches[i].label == label);
                assert(rest.batches[i].label == label);
            }
        }
        assert(batcher.contains(last.label) && batcher.get(last.label) == last);
        assert(before.contains_key(last.label));
        if last.expired() {
            let release = CommandView::Release { label: last.label };
            assert(batcher.release_commands() =~= rest.release_commands().push(release));
            assert(batcher.release_commands().drop_last() =~= rest.release_commands());
            assert(after == before.remove(last.label));
        } else {
            assert(batcher.release_commands() =~= rest.release_commands());
            assert(after == before);
        }
        assert forall|label: Seq<char>| #[trigger] after.dom().contains(label) <==> (
        buffers.dom().contains(label) && !is_released(batcher, label)) by {
            assert(before.dom().contains(label) <==> (buffers.dom().contains(label)
                && !is_released(rest, label)));
            if label != last.label {
                assert(after.dom().contains(label) == before.dom().contains(label));
                assert(is_released(batcher, label) == is_released(rest, label));
            }
        }
        assert forall|label: Seq<char>| #[trigger] after.dom().contains(label) implies after[label]
            == buffers[label] by {
            assert(before.dom().contains(label));
        }
    }
}

/// If the buffers are those of the batches, the buffers of the expired
/// batches can be released, and afterwards the buffers are those of the
/// batches that are left.
pub proof fn lemma_cleanup_keeps_step(buffers: Buffers, batcher: BatcherView)
    requires
        batcher.distinct(),
        in_step(buffers, batcher),
    ensures
        can_carry_out(buffers, batcher.release_commands()),
        in_step(carried_out(buffers, batcher.release_commands()), batcher.cleaned()),
{
    let after = carried_out(buffers, batcher.release_commands());
    let cleaned = batcher.cleaned();
    assert forall|i: int| 0 <= i < batcher.batches.len() implies buffers.contains_key(
        (#[trigger] batcher.batches[i]).label,
    ) by {
        assert(batcher.contains(batcher.batches[i].label));
    }
    lemma_expired_can_be_released(buffers, batcher);
    assert forall|label: Seq<char>| after.contains_key(label) <==> cleaned.contains(label) by {
        lemma_cleaned_lookup(batcher, label);
        assert(after.dom().contains(label) <==> (buffers.dom().contains(label) && !is_released(
            batcher,
            label,
        )));
    }
    assert forall|k: int| 0 <= k < cleaned.batches.len() implies after[(
    #[trigger] cleaned.batches[k]).label] == cleaned.batches[k].size by {
        let label = cleaned.batches[k].label;
        lemma_cleaned_lookup(batcher, label);
        lemma_lookup_at(cleaned, k);
        let j = batcher.index(label);
        assert(0 <= j < batcher.batches.len() && batcher.batches[j].label == label);
        lemma_lookup_at(batcher, j);
        assert(after.dom().contains(label) <==> (buffers.dom().contains(label) && !is_released(
            batcher,
            label,
        )));
        assert(after.dom().contains(label));
    }
}

/// One sprite keeps the buffers in step with the batches, once the command
/// it returns has been carried out.
pub proof fn lemma_sprite_keeps_step(
    buffers: Buffers,
    draw: DrawView,
    texture: crate::texture::TextureView,
    model: [[u32; 4]; 4],
    tint: Option<crate::color::Color>,
)
    requires
        draw.batcher.distinct(),
        in_step(buffers, draw.batcher),
    ensures
        in_step(
            after(buffers, draw.batcher.added_command(texture.path)),
            draw.drawn(texture, model, tint).batcher,
        ),
{
    lemma_add_keeps_step(
        buffers,
        draw.batcher,
        texture.path,
        draw.attachments(texture),
        draw.instance(model, tint),
    );
}

/// The commands of a frame can be carried out in order: every buffer that
/// is bound, filled or dropped exists at that point, and every upload fits
/// its buffer. Afterwards the buffers are again those of the batches.
pub proof fn lemma_frame_keeps_step(buffers: Buffers, draw: DrawView)
    requires
        draw.batcher.distinct(),
        in_step(buffers, draw.batcher),
        forall|i: int|
            0 <= i < draw.batcher.batches.len() ==> (#[trigger] draw.batcher.batches[i]).count()
                <= u32::MAX,
    ensures
        can_carry_out(buffers, draw.frame_commands()),
        in_step(carried_out(buffers, draw.frame_commands()), draw.submitted().batcher),
{
    let quad = Quad::spec_apply();
    let draws = draw.batcher.draw_commands();
    let releases = draw.batcher.written().release_commands();
    lemma_carry_idle(buffers, quad);
    lemma_write_keeps_step(buffers, draw.batcher);
    lemma_written_lookup(draw.batcher, Seq::empty());
    let written = carried_out(buffers, draws);
    lemma_cleanup_keeps_step(written, draw.batcher.written());
    lemma_carry_add(buffers, quad, draws);
    lemma_carry_add(buffers, quad + draws, releases);
}

} // verus!
