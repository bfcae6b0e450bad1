//! The batcher: one batch per key, made on first use and dropped once it
//! has gone unused for its whole lifetime.

use vstd::prelude::*;
use crate::attachment::DrawAttachment;
use crate::batch::{BatchView, DrawBatch};
use crate::command::{push, Command, CommandView};
use crate::instance::{DrawInstance, INSTANCE_BYTES};

verus! {

/// The state of a batcher as contracts speak of it: its batches in the
/// order in which they are drawn.
pub struct BatcherView {
    pub batches: Seq<BatchView>,
}

impl BatcherView {
    /// A batcher without batches.
    pub open spec fn empty() -> BatcherView {
        BatcherView { batches: Seq::empty() }
    }

    /// The first `n` batches.
    pub open spec fn prefix(self, n: int) -> BatcherView {
        BatcherView { batches: self.batches.take(n) }
    }

    /// The number of batches.
    pub open spec fn len(self) -> nat {
        self.batches.len()
    }

    /// The keys of the batches, in drawing order.
    pub open spec fn labels(self) -> Seq<Seq<char>> {
        Seq::new(self.batches.len(), |i: int| self.batches[i].label)
    }

    /// No two batches have the same key.
    pub open spec fn distinct(self) -> bool {
        forall|i: int, j: int|
            0 <= i < j < self.batches.len() ==> (#[trigger] self.batches[i]).label != (
            #[trigger] self.batches[j]).label
    }

    /// Whether there is a batch for `label`.
    pub open spec fn contains(self, label: Seq<char>) -> bool {
        exists|i: int| 0 <= i < self.batches.len() && (#[trigger] self.batches[i]).label == label
    }

    /// The position of the batch for `label`, where there is one.
    pub open spec fn index(self, label: Seq<char>) -> int {
        choose|i: int| 0 <= i < self.batches.len() && (#[trigger] self.batches[i]).label == label
    }

    /// The batch for `label`, where there is one.
    pub open spec fn get(self, label: Seq<char>) -> BatchView {
        self.batches[self.index(label)]
    }

    /// The batcher after a draw call under `label`. A batch that exists gets
    /// the instance and keeps the attachments it was made with; otherwise a
    /// batch is made for this one instance with these attachments, behind
    /// all others.
    pub open spec fn added(
        self,
        label: Seq<char>,
        attachments: Seq<DrawAttachment>,
        instance: DrawInstance,
    ) -> BatcherView {
        if self.contains(label) {
            BatcherView {
                batches: self.batches.update(self.index(label), self.get(label).added(instance)),
            }
        } else {
            BatcherView {
                batches: self.batches.push(BatchView::new(label, attachments, seq![instance])),
            }
        }
    }

    /// The command owed for a draw call under `label`: the allocation of the
    /// buffer if the call makes a batch, nothing otherwise.
    pub open spec fn added_command(self, label: Seq<char>) -> Option<CommandView> {
        if self.contains(label) {
            None
        } else {
            Some(CommandView::Allocate { label, size: INSTANCE_BYTES })
        }
    }

    /// The batcher after every batch has been written.
    pub open spec fn written(self) -> BatcherView {
        BatcherView {
            batches: Seq::new(self.batches.len(), |i: int| self.batches[i].written()),
        }
    }

    /// The commands that draw every batch, batch after batch.
    pub open spec fn draw_commands(self) -> Seq<CommandView>
        decreases self.batches.len(),
    {
        if self.batches.len() == 0 {
            Seq::empty()
        } else {
            BatcherView { batches: self.batches.drop_last() }.draw_commands()
                + self.batches.last().draw_commands()
        }
    }

    /// The batcher without the batches that have expired; the others keep
    /// their order.
    pub open spec fn cleaned(self) -> BatcherView {
        BatcherView { batches: self.batches.filter(|batch: BatchView| !batch.expired()) }
    }

    /// The commands that release the buffers of the expired batches.
    pub open spec fn release_commands(self) -> Seq<CommandView> {
        let expired = self.batches.filter(|batch: BatchView| batch.expired());
        Seq::new(expired.len(), |i: int| CommandView::Release { label: expired[i].label })
    }
}

/// A keyed collection of draw batches.
#[derive(Debug)]
pub struct Batcher {
    batches: Vec<DrawBatch>,
}

impl View for Batcher {
    type V = BatcherView;

    closed spec fn view(&self) -> BatcherView {
        BatcherView { batches: Seq::new(self.batches@.len(), |i: int| self.batches@[i]@) }
    }
}

impl Batcher {
    /// Every batch is well formed and no key occurs twice.
    pub closed spec fn wf(&self) -> bool {
        &&& forall|i: int| 0 <= i < self.batches@.len() ==> (#[trigger] self.batches@[i]).wf()
        &&& self@.distinct()
    }

    /// What well-formedness says of the view. The laws about whole frames
    /// ask for distinct keys; this is where a batcher is shown to have them.
    pub proof fn lemma_wf(&self)
        requires
            self.wf(),
        ensures
            self@.distinct(),
            forall|i: int|
                0 <= i < self@.batches.len() ==> (#[trigger] self@.batches[i]).count() <= u32::MAX,
            forall|i: int|
                0 <= i < self@.batches.len() ==> (#[trigger] self@.batches[i]).lifetime
                    <= DrawBatch::LIFETIME,
    {
        assert forall|i: int| 0 <= i < self@.batches.len() implies {
            &&& (#[trigger] self@.batches[i]).count() <= u32::MAX
            &&& self@.batches[i].lifetime <= DrawBatch::LIFETIME
        } by {
            self.batches@[i].lemma_wf();
        }
    }

    /// A batcher without batches.
    pub fn new() -> (batcher: Batcher)
        ensures
            batcher.wf(),
            batcher@ == BatcherView::empty(),
    {
        let batcher = Batcher { batches: Vec::new() };
        assert(batcher@.batches =~= Seq::empty());
        batcher
    }

    /// The number of batches.
    pub fn len(&self) -> (len: usize)
        ensures
            len == self@.len(),
    {
        self.batches.len()
    }

    /// The batches, in drawing order.
    pub fn batches(&self) -> (batches: &Vec<DrawBatch>)
        ensures
            batches@.len() == self@.len(),
            forall|i: int|
                0 <= i < batches@.len() ==> (#[trigger] batches@[i])@ == self@.batches[i],
            self.wf() ==> forall|i: int|
                0 <= i < batches@.len() ==> (#[trigger] batches@[i]).wf(),
    {
        &self.batches
    }

    /// Where the batch for `id` is, if there is one.
    pub fn find(&self, id: &str) -> (found: Option<usize>)
        ensures
            found is Some <==> self@.contains(id@),
            found matches Some(i) ==> i < self@.len() && self@.batches[i as int].label == id@,
            found matches Some(i) ==> self.wf() ==> i == self@.index(id@),
    {
        let key = id.to_owned();
        let mut i: usize = 0;
        while i < self.batches.len()
            invariant
                i <= self.batches@.len(),
                key@ == id@,
                forall|j: int| 0 <= j < i ==> (#[trigger] self@.batches[j]).label != id@,
            decreases self.batches@.len() - i,
        {
            if *self.batches[i].label() == key {
                assert(self@.batches[i as int].label == id@);
                return Some(i);
            }
            i += 1;
        }
        None
    }

    /// The batch for `id`, if there is one.
    pub fn get(&self, id: &str) -> (batch: Option<&DrawBatch>)
        ensures
            batch is Some <==> self@.contains(id@),
            batch matches Some(b) ==> b@.label == id@ && (self.wf() ==> b.wf() && b@ == self@.get(
                id@,
            )),
    {
        match self.find(id) {
            Some(i) => Some(&self.batches[i]),
            None => None,
        }
    }

    /// Takes one draw call. The instance goes to the batch for `id`; if
    /// there is none, one is made for it with `attachments`, and the command
    /// that allocates its buffer is returned.
    pub fn add(
        &mut self,
        id: &str,
        attachments: &[DrawAttachment],
        instance: DrawInstance,
    ) -> (created: Option<Command>)
        requires
            old(self).wf(),
            old(self)@.contains(id@) ==> old(self)@.get(id@).count() < u32::MAX,
        ensures
            final(self).wf(),
            final(self)@ == old(self)@.added(id@, attachments@, instance),
            created.deep_view() == old(self)@.added_command(id@),
    {
        match self.find(id) {
            Some(i) => {
                self.batches[i].add(instance);
                assert(self@.batches =~= old(self)@.batches.update(
                    i as int,
                    old(self)@.get(id@).added(instance),
                ));
                None
            },
            None => {
                let mut instances: Vec<DrawInstance> = Vec::new();
                instances.push(instance);
                let batch = DrawBatch::new(id, vstd::slice::slice_to_vec(attachments), instances);
                let command = batch.allocation();
                self.batches.push(batch);
                assert(instances@ =~= seq![instance]);
                assert(self@.batches =~= old(self)@.batches.push(
                    BatchView::new(id@, attachments@, seq![instance]),
                ));
                Some(command)
            },
        }
    }

    /// Ends the frame for every batch, in order, and appends the commands
    /// that draw them.
    pub fn write(&mut self, commands: &mut Vec<Command>)
        requires
            old(self).wf(),
        ensures
            final(self).wf(),
            final(self)@ == old(self)@.written(),
            final(commands).deep_view() == old(commands).deep_view()
                + old(self)@.draw_commands(),
    {
        let ghost before = commands.deep_view();
        let mut i: usize = 0;
        while i < self.batches.len()
            invariant
                i <= self.batches@.len(),
                self.batches@.len() == old(self).batches@.len(),
                forall|j: int| 0 <= j < self.batches@.len() ==> (#[trigger] self.batches@[j]).wf(),
                forall|j: int|
                    0 <= j < i ==> (#[trigger] self.batches@[j])@ == old(
                        self,
                    )@.batches[j].written(),
                forall|j: int|
                    i <= j < self.batches@.len() ==> (#[trigger] self.batches@[j])@ == old(
                        self,
                    )@.batches[j],
                commands.deep_view() == before + old(self)@.prefix(i as int).draw_commands(),
            decreases self.batches@.len() - i,
        {
            self.batches[i].draw(commands);
            proof {
                let prefix = old(self)@.batches.take(i as int + 1);
                assert(prefix.drop_last() =~= old(self)@.batches.take(i as int));
                assert(prefix.last() == old(self)@.batches[i as int]);
                assert(old(self)@.prefix(i as int + 1).batches == prefix);
                assert(old(self)@.prefix(i as int + 1).draw_commands() == old(self)@.prefix(
                    i as int,
                ).draw_commands() + prefix.last().draw_commands());
                assert(commands.deep_view() =~= before + old(self)@.prefix(
                    i as int + 1,
                ).draw_commands());
            }
            i += 1;
        }
        proof {
            assert(old(self)@.batches.take(i as int) =~= old(self)@.batches);
            assert(old(self)@.prefix(i as int) == old(self)@);
            assert(self@.batches =~= old(self)@.written().batches);
        }
    }

    /// Drops every batch that has expired and appends the commands that
    /// release their buffers. To be called once per frame, after the
    /// batches have been written.
    pub fn cleanup(&mut self, commands: &mut Vec<Command>)
        requires
            old(self).wf(),
        ensures
            final(self).wf(),
            final(self)@ == old(self)@.cleaned(),
            final(commands).deep_view() == old(commands).deep_view()
                + old(self)@.release_commands(),
    {
        let ghost before = commands.deep_view();
        let ghost all = self@.batches;
        let ghost live = |batch: BatchView| !batch.expired();
        let ghost dead = |batch: BatchView| batch.expired();
        let mut i: usize = 0;
        let ghost mut seen: int = 0;
        while i < self.batches.len()
            invariant
                0 <= i <= self.batches@.len(),
                0 <= seen <= all.len(),
                self.batches@.len() - i == all.len() - seen,
                all == old(self)@.batches,
                old(self).wf(),
                live == |batch: BatchView| !batch.expired(),
                dead == |batch: BatchView| batch.expired(),
                forall|j: int| 0 <= j < self.batches@.len() ==> (#[trigger] self.batches@[j]).wf(),
                self@.batches.take(i as int) == all.take(seen).filter(live),
                self@.batches.skip(i as int) == all.skip(seen),
                commands.deep_view() == before + old(self)@.prefix(seen).release_commands(),
            decreases self.batches@.len() - i,
        {
            let ghost current = self@.batches;
            assert(current[i as int] == current.skip(i as int)[0]);
            assert(all[seen] == all.skip(seen)[0]);
            assert(all.take(seen + 1) =~= all.take(seen).push(all[seen]));
            proof {
                all.take(seen).lemma_filter_push(all[seen], live);
                all.take(seen).lemma_filter_push(all[seen], dead);
            }
            if self.batches[i].expired() {
                let batch = self.batches.remove(i);
                push(commands, Command::Release { label: batch.label().clone() });
                proof {
                    assert(self@.batches =~= current.remove(i as int));
                    assert(self@.batches.take(i as int) =~= current.take(i as int));
                    assert(self@.batches.skip(i as int) =~= current.skip(i as int).skip(1));
                    assert(all.skip(seen).skip(1) =~= all.skip(seen + 1));
                    assert(old(self)@.prefix(seen + 1).release_commands() =~= old(self)@.prefix(
                        seen,
                    ).release_commands().push(CommandView::Release { label: all[seen].label }));
                }
            } else {
                proof {
                    assert(self@.batches.take(i as int + 1) =~= current.take(i as int).push(
                        current[i as int],
                    ));
                    assert(self@.batches.skip(i as int + 1) =~= current.skip(i as int).skip(1));
                    assert(all.skip(seen).skip(1) =~= all.skip(seen + 1));
                    assert(old(self)@.prefix(seen + 1).release_commands() =~= old(self)@.prefix(
                        seen,
                    ).release_commands());
                }
                i += 1;
            }
            proof {
                seen = seen + 1;
            }
        }
        proof {
            assert(all.take(seen) =~= all);
            assert(old(self)@.prefix(seen) == old(self)@);
            assert(self@.batches.take(i as int) =~= self@.batches);
            lemma_cleaned_distinct(old(self)@);
        }
    }
}

/// Dropping batches keeps the keys of the others apart.
pub proof fn lemma_cleaned_distinct(batcher: BatcherView)
    requires
        batcher.distinct(),
    ensures
        batcher.cleaned().distinct(),
    decreases batcher.batches.len(),
{
    let live = |batch: BatchView| !batch.expired();
    reveal(Seq::filter);
    if batcher.batches.len() > 0 {
        let rest = BatcherView { batches: batcher.batches.drop_last() };
        let last = batcher.batches.last();
        let kept = rest.cleaned().batches;
        lemma_cleaned_distinct(rest);
        assert forall|i: int| 0 <= i < kept.len() implies (#[trigger] kept[i]).label
            != last.label by {
            assert(kept.contains(kept[i]));
            rest.batches.lemma_filter_contains_rev(live, kept[i]);
            let j = choose|j: int| 0 <= j < rest.batches.len() && rest.batches[j] == kept[i];
            assert(batcher.batches[j] == rest.batches[j]);
        }
    }
}

/// Every batch that is left after the cleanup was there before it.
pub proof fn lemma_cleaned_from(batcher: BatcherView, k: int)
    requires
        0 <= k < batcher.cleaned().batches.len(),
    ensures
        !batcher.cleaned().batches[k].expired(),
        exists|j: int|
            0 <= j < batcher.batches.len() && #[trigger] batcher.batches[j]
                == batcher.cleaned().batches[k],
{
    let live = |batch: BatchView| !batch.expired();
    let kept = batcher.cleaned().batches;
    batcher.batches.lemma_filter_pred(live, k);
    assert(kept.contains(kept[k]));
    batcher.batches.lemma_filter_contains_rev(live, kept[k]);
    let j = choose|j: int| 0 <= j < batcher.batches.len() && batcher.batches[j] == kept[k];
    assert(batcher.batches[j] == kept[k]);
}

} // verus!
