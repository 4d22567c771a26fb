//! What the publish protocol achieves: how it fares over a whole run of
//! events, and where it leaves a registry whose tags can be deleted and
//! stored one at a time.

use crate::aws::{
    floating, floating_names, judged_delete, judged_put, lemma_complete_prefix, names, next,
    open_cleanup, open_publish, CommandView, EventView, PhaseView, PublishErrorView,
    PublisherView, RecordView, VerdictView,
};
use crate::business::{lemma_tag_names_are_distinct, tags_of};
use crate::config::TagView;
use crate::registry::{DeleteOutcomeView, ImageIdView, ImageView, PutOutcomeView};
use vstd::prelude::*;
use vstd::seq_lib::{to_multiset_contains, to_multiset_len};

verus! {

/// How the protocol judges the answer that an event carries.
pub open spec fn judged(event: EventView) -> VerdictView {
    match event {
        EventView::Deleted(outcome) => judged_delete(outcome),
        EventView::Put(outcome) => judged_put(outcome),
    }
}

/// Whether a phase awaits an event: the cleanup awaits answers to deletes,
/// the second phase answers to puts.
pub open spec fn awaited(phase: PhaseView, event: EventView) -> bool {
    (phase is Cleanup && event is Deleted) || (phase is Publish && event is Put)
}

/// The state after a run of events, taken one by one.
pub open spec fn run(state: PublisherView, events: Seq<EventView>) -> PublisherView
    decreases events.len(),
{
    if events.len() == 0 {
        state
    } else {
        run(next(state, events.first()).0, events.drop_first())
    }
}

/// A run of two parts is the run of the second part from where the first
/// part ends.
pub proof fn lemma_run_in_parts(
    state: PublisherView,
    first: Seq<EventView>,
    second: Seq<EventView>,
)
    ensures
        run(state, first + second) == run(run(state, first), second),
    decreases first.len(),
{
    if first.len() == 0 {
        assert(first + second =~= second);
    } else {
        assert((first + second).first() == first.first());
        assert((first + second).drop_first() =~= first.drop_first() + second);
        lemma_run_in_parts(next(state, first.first()).0, first.drop_first(), second);
    }
}

/// A publish that has ended stays as it ended: no later event changes the
/// state, and each is answered with the same verdict.
pub proof fn lemma_end_is_final(state: PublisherView, events: Seq<EventView>)
    requires
        state.phase is Done || state.phase is Failed,
    ensures
        run(state, events) == state,
        forall|event: EventView|
            #![trigger next(state, event)]
            next(state, event).1.command == (match state.phase {
                PhaseView::Failed(error) => CommandView::Abort(error),
                _ => CommandView::Finish,
            }),
    decreases events.len(),
{
    if events.len() > 0 {
        lemma_end_is_final(state, events.drop_first());
    }
}

/// An awaited answer with a fault ends the publish with that fault: the
/// command is to abort with it, and whatever follows, the publish stays
/// failed with it.
pub proof fn lemma_fault_ends_publish(
    state: PublisherView,
    before: Seq<EventView>,
    event: EventView,
    after: Seq<EventView>,
)
    requires
        awaited(run(state, before).phase, event),
        judged(event).fault is Some,
    ensures
        next(run(state, before), event).1.command == CommandView::Abort(judged(event).fault->0),
        run(state, before + seq![event] + after).phase == PhaseView::Failed(
            judged(event).fault->0,
        ),
{
    let reached = run(state, before);
    let failed = next(reached, event).0;
    lemma_run_in_parts(state, before + seq![event], after);
    lemma_run_in_parts(state, before, seq![event]);
    assert(run(reached, seq![event]) == failed) by {
        assert(seq![event].drop_first() =~= Seq::<EventView>::empty());
        assert(run(failed, Seq::empty()) == failed);
    }
    lemma_end_is_final(failed, after);
}

/// A failure of the registry that is not tolerated is what the publish
/// returns: a delete that fails during the cleanup, or a put that fails
/// during the second phase, ends the publish with the registry's message.
pub proof fn lemma_fatal_answer_is_returned(
    state: PublisherView,
    before: Seq<EventView>,
    message: Seq<char>,
    after: Seq<EventView>,
)
    ensures
        run(state, before).phase is Cleanup ==> run(
            state,
            before + seq![EventView::Deleted(DeleteOutcomeView::Fatal(message))] + after,
        ).phase == PhaseView::Failed(PublishErrorView::Registry(message)),
        run(state, before).phase is Publish ==> run(
            state,
            before + seq![EventView::Put(PutOutcomeView::Fatal(message))] + after,
        ).phase == PhaseView::Failed(PublishErrorView::Registry(message)),
{
    if run(state, before).phase is Cleanup {
        lemma_fault_ends_publish(
            state,
            before,
            EventView::Deleted(DeleteOutcomeView::Fatal(message)),
            after,
        );
    }
    if run(state, before).phase is Publish {
        lemma_fault_ends_publish(
            state,
            before,
            EventView::Put(PutOutcomeView::Fatal(message)),
            after,
        );
    }
}

/// A put that finds an image under its tag already does not fail the
/// publish: it is noted, and counts as answered like any other.
pub proof fn lemma_existing_image_is_tolerated(state: PublisherView, message: Seq<char>)
    requires
        state.phase is Publish,
    ensures
        ({
            let (after, step) = next(state, EventView::Put(PutOutcomeView::AlreadyExists(message)));
            &&& after.tags == state.tags
            &&& after.phase == if state.phase->Publish_0 > 1 {
                PhaseView::Publish((state.phase->Publish_0 - 1) as nat)
            } else {
                PhaseView::Done
            }
            &&& step.records == seq![RecordView::Kept { message }]
            &&& step.command == if state.phase->Publish_0 > 1 {
                CommandView::Wait
            } else {
                CommandView::Finish
            }
        }),
{
}

/// A missing tag does not fail the cleanup: a delete that finds no image
/// under its tag counts as answered like any other.
pub proof fn lemma_missing_tag_is_tolerated(state: PublisherView)
    requires
        state.phase is Cleanup,
    ensures
        ({
            let (after, step) = next(state, EventView::Deleted(DeleteOutcomeView::NotFound));
            &&& after.tags == state.tags
            &&& (after.phase, step.command) == if state.phase->Cleanup_0 > 1 {
                (PhaseView::Cleanup((state.phase->Cleanup_0 - 1) as nat), CommandView::Wait)
            } else {
                open_publish(state.tags)
            }
            &&& step.records == Seq::<RecordView>::empty()
        }),
{
}

/// The puts wait for the cleanup. A step commands the puts only in answer
/// to a delete that the cleanup awaited as its last and that is tolerated;
/// then it commands a put for every tag. No step commands a delete.
pub proof fn lemma_puts_follow_the_last_delete(state: PublisherView, event: EventView)
    ensures
        !(next(state, event).1.command is Delete),
        next(state, event).1.command is Put ==> {
            &&& state.phase is Cleanup
            &&& state.phase->Cleanup_0 <= 1
            &&& event is Deleted
            &&& judged(event).fault is None
            &&& next(state, event).1.command == CommandView::Put(names(state.tags))
            &&& next(state, event).0.phase == PhaseView::Publish(state.tags.len())
        },
{
}

/// Where no two tags have the same name, no request is sent twice: the
/// deletes of the cleanup are for tags that differ, each of them a tag of
/// the publish, and so are the puts.
pub proof fn lemma_no_request_is_sent_twice(tags: Seq<(Seq<char>, bool)>)
    requires
        names(tags).no_duplicates(),
    ensures
        floating_names(tags).no_duplicates(),
        forall|name: Seq<char>| #[trigger]
            floating_names(tags).contains(name) ==> names(tags).contains(name),
        open_cleanup(tags).1 matches CommandView::Delete(sent) ==> sent.no_duplicates(),
        open_publish(tags).1 matches CommandView::Put(sent) ==> sent.no_duplicates(),
    decreases tags.len(),
{
    reveal(Seq::filter);
    if tags.len() > 0 {
        let front = tags.drop_last();
        let last = tags.last();
        assert(names(front) =~= names(tags).drop_last());
        assert forall|i: int, j: int|
            0 <= i < names(front).len() && 0 <= j < names(front).len() && i != j implies names(
            front,
        )[i] != names(front)[j] by {
            assert(names(front)[i] == names(tags)[i] && names(front)[j] == names(tags)[j]);
        }
        lemma_no_request_is_sent_twice(front);
        assert forall|name: Seq<char>| names(front).contains(name) implies names(tags).contains(
            name,
        ) && name != last.0 by {
            let i = choose|i: int| 0 <= i < names(front).len() && names(front)[i] == name;
            assert(names(tags)[i] == name);
            assert(names(tags)[tags.len() - 1] == last.0);
        }
        assert(names(tags).contains(last.0)) by {
            assert(names(tags)[tags.len() - 1] == last.0);
        }
        if last.1 {
            assert(floating_names(tags) =~= floating_names(front).push(last.0));
            assert forall|i: int, j: int|
                0 <= i < floating_names(tags).len() && 0 <= j < floating_names(tags).len() && i
                    != j implies floating_names(tags)[i] != floating_names(tags)[j] by {
                if i < floating_names(front).len() {
                    assert(floating_names(front).contains(floating_names(tags)[i]));
                }
                if j < floating_names(front).len() {
                    assert(floating_names(front).contains(floating_names(tags)[j]));
                }
            }
            assert forall|name: Seq<char>| #[trigger]
                floating_names(tags).contains(name) implies names(tags).contains(name) by {
                let i = choose|i: int|
                    0 <= i < floating_names(tags).len() && floating_names(tags)[i] == name;
                if i < floating_names(front).len() {
                    assert(floating_names(front).contains(name));
                }
            }
        } else {
            assert(floating_names(tags) =~= floating_names(front));
        }
    }
}

/// For the tags of a build no request is sent twice.
pub proof fn lemma_requests_of_a_build_differ(environment: Option<Seq<char>>, tag: TagView)
    requires
        tag.wf(),
    ensures
        names(tags_of(environment, tag)).no_duplicates(),
        floating_names(tags_of(environment, tag)).no_duplicates(),
{
    let tags = tags_of(environment, tag);
    lemma_tag_names_are_distinct(environment, tag);
    assert forall|i: int, j: int|
        0 <= i < names(tags).len() && 0 <= j < names(tags).len() && i != j implies names(tags)[i]
        != names(tags)[j] by {
        if i < j {
            assert(tags[i].0 != tags[j].0);
        } else {
            assert(tags[j].0 != tags[i].0);
        }
    }
    lemma_no_request_is_sent_twice(tags);
}

/// The protocol keeps its invariant.
pub proof fn lemma_next_keeps_wf(state: PublisherView, event: EventView)
    requires
        state.wf(),
    ensures
        next(state, event).0.wf(),
        next(state, event).0.tags == state.tags,
{
    state.tags.lemma_filter_len(|tag: (Seq<char>, bool)| tag.1);
}

/// The identifier under which the registry reports an image.
pub open spec fn reported(name: Seq<char>, image: Seq<char>) -> ImageIdView {
    ImageIdView { tag: Some(name), digest: Some(image) }
}

/// A delete in a registry that maps each tag to the digest of its image:
/// the tag goes and its image is reported; a tag that is not there is
/// reported as not found.
pub open spec fn delete_in(registry: Map<Seq<char>, Seq<char>>, name: Seq<char>) -> (
    Map<Seq<char>, Seq<char>>,
    DeleteOutcomeView,
) {
    if registry.contains_key(name) {
        (registry.remove(name), DeleteOutcomeView::Deleted(seq![reported(name, registry[name])]))
    } else {
        (registry, DeleteOutcomeView::NotFound)
    }
}

/// A put in such a registry: a tag that is free gets the image, which is
/// reported; a tag that is taken stays as it is, and that is reported.
pub open spec fn put_in(
    registry: Map<Seq<char>, Seq<char>>,
    name: Seq<char>,
    image: Seq<char>,
) -> (Map<Seq<char>, Seq<char>>, PutOutcomeView) {
    if registry.contains_key(name) {
        (registry, PutOutcomeView::AlreadyExists(name))
    } else {
        (
            registry.insert(name, image),
            PutOutcomeView::Created(Some(ImageView { id: Some(reported(name, image)) })),
        )
    }
}

/// Registry and protocol after the deletes for `order` have been carried
/// out and answered, one after the other.
pub open spec fn after_deletes(
    registry: Map<Seq<char>, Seq<char>>,
    state: PublisherView,
    order: Seq<Seq<char>>,
) -> (Map<Seq<char>, Seq<char>>, PublisherView)
    decreases order.len(),
{
    if order.len() == 0 {
        (registry, state)
    } else {
        let (left, outcome) = delete_in(registry, order.first());
        after_deletes(left, next(state, EventView::Deleted(outcome)).0, order.drop_first())
    }
}

/// Registry and protocol after the puts of `image` for `order` have been
/// carried out and answered, one after the other.
pub open spec fn after_puts(
    registry: Map<Seq<char>, Seq<char>>,
    state: PublisherView,
    order: Seq<Seq<char>>,
    image: Seq<char>,
) -> (Map<Seq<char>, Seq<char>>, PublisherView)
    decreases order.len(),
{
    if order.len() == 0 {
        (registry, state)
    } else {
        let (grown, outcome) = put_in(registry, order.first(), image);
        after_puts(grown, next(state, EventView::Put(outcome)).0, order.drop_first(), image)
    }
}

/// Registry and protocol after a whole publish of `image` under `tags`:
/// the deletes land in the order `deletes`, then the puts in the order
/// `puts`.
pub open spec fn published(
    registry: Map<Seq<char>, Seq<char>>,
    tags: Seq<(Seq<char>, bool)>,
    image: Seq<char>,
    deletes: Seq<Seq<char>>,
    puts: Seq<Seq<char>>,
) -> (Map<Seq<char>, Seq<char>>, PublisherView) {
    let opened = PublisherView { tags, phase: open_cleanup(tags).0 };
    let (cleaned, halfway) = after_deletes(registry, opened, deletes);
    after_puts(cleaned, halfway, puts, image)
}

/// What a registry holds after a publish: a tag of the publish that may be
/// moved, or that was free, points at the new image; any other tag is as
/// it was.
pub open spec fn converged(
    registry: Map<Seq<char>, Seq<char>>,
    tags: Seq<(Seq<char>, bool)>,
    image: Seq<char>,
    result: Map<Seq<char>, Seq<char>>,
) -> bool {
    forall|name: Seq<char>|
        #![trigger result.contains_key(name)]
        #![trigger result[name]]
        if names(tags).contains(name) {
            &&& result.contains_key(name)
            &&& result[name] == if floating_names(tags).contains(name) || !registry.contains_key(
                name,
            ) {
                image
            } else {
                registry[name]
            }
        } else {
            &&& result.contains_key(name) == registry.contains_key(name)
            &&& registry.contains_key(name) ==> result[name] == registry[name]
        }
}

proof fn lemma_contains_first_or_rest(order: Seq<Seq<char>>, name: Seq<char>)
    requires
        order.len() > 0,
    ensures
        order.contains(name) <==> (order.first() == name || order.drop_first().contains(name)),
{
    let rest = order.drop_first();
    if order.contains(name) {
        let i = choose|i: int| 0 <= i < order.len() && order[i] == name;
        if i > 0 {
            assert(rest[i - 1] == name);
        }
    }
    if rest.contains(name) {
        let i = choose|i: int| 0 <= i < rest.len() && rest[i] == name;
        assert(order[i + 1] == name);
    }
}

/// When as many deletes land as the cleanup awaits, the cleanup ends and
/// the second phase opens; the registry has lost the deleted tags and
/// nothing else.
proof fn lemma_cleanup_completes(
    registry: Map<Seq<char>, Seq<char>>,
    state: PublisherView,
    order: Seq<Seq<char>>,
)
    requires
        order.len() >= 1,
        state.phase == PhaseView::Cleanup(order.len()),
    ensures
        after_deletes(registry, state, order).1 == (PublisherView {
            tags: state.tags,
            phase: open_publish(state.tags).0,
        }),
        forall|name: Seq<char>|
            #![trigger after_deletes(registry, state, order).0.contains_key(name)]
            after_deletes(registry, state, order).0.contains_key(name) == (registry.contains_key(
                name,
            ) && !order.contains(name)),
        forall|name: Seq<char>|
            #![trigger after_deletes(registry, state, order).0[name]]
            registry.contains_key(name) && !order.contains(name) ==> after_deletes(
                registry,
                state,
                order,
            ).0[name] == registry[name],
    decreases order.len(),
{
    let name = order.first();
    let rest = order.drop_first();
    let (left, outcome) = delete_in(registry, name);
    if registry.contains_key(name) {
        lemma_complete_prefix(seq![reported(name, registry[name])], 1);
    }
    assert(judged_delete(outcome).fault is None);
    let after = next(state, EventView::Deleted(outcome)).0;
    assert forall|other: Seq<char>|
        order.contains(other) <==> (name == other || rest.contains(other)) by {
        lemma_contains_first_or_rest(order, other);
    }
    if order.len() == 1 {
        assert(rest.len() == 0);
        assert(after_deletes(left, after, rest) == (left, after));
    } else {
        lemma_cleanup_completes(left, after, rest);
    }
}

/// When as many puts land as the second phase awaits, the publish ends
/// well; the registry has gained the tags that were free, each pointing at
/// the new image, and nothing else has changed.
proof fn lemma_puts_complete(
    registry: Map<Seq<char>, Seq<char>>,
    state: PublisherView,
    order: Seq<Seq<char>>,
    image: Seq<char>,
)
    requires
        order.len() >= 1,
        state.phase == PhaseView::Publish(order.len()),
    ensures
        after_puts(registry, state, order, image).1 == (PublisherView {
            tags: state.tags,
            phase: PhaseView::Done,
        }),
        forall|name: Seq<char>|
            #![trigger after_puts(registry, state, order, image).0.contains_key(name)]
            after_puts(registry, state, order, image).0.contains_key(name) == (
            registry.contains_key(name) || order.contains(name)),
        forall|name: Seq<char>|
            #![trigger after_puts(registry, state, order, image).0[name]]
            (registry.contains_key(name) ==> after_puts(registry, state, order, image).0[name]
                == registry[name]) && (!registry.contains_key(name) && order.contains(name)
                ==> after_puts(registry, state, order, image).0[name] == image),
    decreases order.len(),
{
    let name = order.first();
    let rest = order.drop_first();
    let (grown, outcome) = put_in(registry, name, image);
    assert(judged_put(outcome).fault is None);
    let after = next(state, EventView::Put(outcome)).0;
    assert forall|other: Seq<char>|
        order.contains(other) <==> (name == other || rest.contains(other)) by {
        lemma_contains_first_or_rest(order, other);
    }
    if order.len() == 1 {
        assert(rest.len() == 0);
        assert(after_puts(grown, after, rest, image) == (grown, after));
    } else {
        lemma_puts_complete(grown, after, rest, image);
    }
}

/// The state after a phase's requests is for the same tags as before.
proof fn lemma_phases_keep_tags(
    registry: Map<Seq<char>, Seq<char>>,
    state: PublisherView,
    order: Seq<Seq<char>>,
    image: Seq<char>,
)
    ensures
        after_deletes(registry, state, order).1.tags == state.tags,
        after_puts(registry, state, order, image).1.tags == state.tags,
    decreases order.len(),
{
    if order.len() > 0 {
        let (left, deleted) = delete_in(registry, order.first());
        let (grown, put) = put_in(registry, order.first(), image);
        lemma_phases_keep_tags(
            left,
            next(state, EventView::Deleted(deleted)).0,
            order.drop_first(),
            image,
        );
        lemma_phases_keep_tags(
            grown,
            next(state, EventView::Put(put)).0,
            order.drop_first(),
            image,
        );
    }
}

proof fn lemma_publish_keeps_tags(
    registry: Map<Seq<char>, Seq<char>>,
    tags: Seq<(Seq<char>, bool)>,
    image: Seq<char>,
    deletes: Seq<Seq<char>>,
    puts: Seq<Seq<char>>,
)
    ensures
        published(registry, tags, image, deletes, puts).1.tags == tags,
{
    let opened = PublisherView { tags, phase: open_cleanup(tags).0 };
    let (cleaned, halfway) = after_deletes(registry, opened, deletes);
    lemma_phases_keep_tags(registry, opened, deletes, image);
    lemma_phases_keep_tags(cleaned, halfway, puts, image);
}

/// A publish against a registry that answers every request ends well,
/// whatever the registry held before and in whatever order the requests of
/// each phase land: afterwards every tag that may be moved points at the
/// new image, every other tag of the publish points at the image it had, or
/// at the new one if it was free, and no other tag has changed.
pub proof fn lemma_publish_converges(
    registry: Map<Seq<char>, Seq<char>>,
    tags: Seq<(Seq<char>, bool)>,
    image: Seq<char>,
    deletes: Seq<Seq<char>>,
    puts: Seq<Seq<char>>,
)
    requires
        deletes.to_multiset() == floating_names(tags).to_multiset(),
        puts.to_multiset() == names(tags).to_multiset(),
    ensures
        published(registry, tags, image, deletes, puts).1.phase == PhaseView::Done,
        converged(registry, tags, image, published(registry, tags, image, deletes, puts).0),
{
    tags.lemma_filter_len(|tag: (Seq<char>, bool)| tag.1);
    assert(deletes.len() == floating(tags).len()) by {
        to_multiset_len(deletes);
        to_multiset_len(floating_names(tags));
    }
    assert(puts.len() == tags.len()) by {
        to_multiset_len(puts);
        to_multiset_len(names(tags));
    }
    assert forall|name: Seq<char>| deletes.contains(name) == floating_names(tags).contains(
        name,
    ) by {
        to_multiset_contains(deletes, name);
        to_multiset_contains(floating_names(tags), name);
    }
    assert forall|name: Seq<char>| puts.contains(name) == names(tags).contains(name) by {
        to_multiset_contains(puts, name);
        to_multiset_contains(names(tags), name);
    }
    assert forall|name: Seq<char>| floating_names(tags).contains(name) implies names(
        tags,
    ).contains(name) by {
        let i = choose|i: int|
            0 <= i < floating_names(tags).len() && floating_names(tags)[i] == name;
        let tag = floating(tags)[i];
        assert(floating(tags).contains(tag));
        tags.lemma_filter_contains_rev(|tag: (Seq<char>, bool)| tag.1, tag);
        let j = choose|j: int| 0 <= j < tags.len() && tags[j] == tag;
        assert(names(tags)[j] == name);
    }
    let opened = PublisherView { tags, phase: open_cleanup(tags).0 };
    let (cleaned, halfway) = after_deletes(registry, opened, deletes);
    if deletes.len() > 0 {
        lemma_cleanup_completes(registry, opened, deletes);
    } else {
        assert(after_deletes(registry, opened, deletes) == (registry, opened));
    }
    assert(halfway == (PublisherView { tags, phase: open_publish(tags).0 }));
    if puts.len() > 0 {
        lemma_puts_complete(cleaned, halfway, puts, image);
    } else {
        assert(after_puts(cleaned, halfway, puts, image) == (cleaned, halfway));
    }
    let result = published(registry, tags, image, deletes, puts).0;
    assert(result == after_puts(cleaned, halfway, puts, image).0);
    assert forall|name: Seq<char>|
        #![trigger result.contains_key(name)]
        #![trigger result[name]]
        if names(tags).contains(name) {
            &&& result.contains_key(name)
            &&& result[name] == if floating_names(tags).contains(name) || !registry.contains_key(
                name,
            ) {
                image
            } else {
                registry[name]
            }
        } else {
            &&& result.contains_key(name) == registry.contains_key(name)
            &&& registry.contains_key(name) ==> result[name] == registry[name]
        } by {
        assert(cleaned.contains_key(name) == (registry.contains_key(name) && !deletes.contains(
            name,
        )));
        assert(result.contains_key(name) == (cleaned.contains_key(name) || puts.contains(name)));
        if cleaned.contains_key(name) {
            assert(cleaned[name] == registry[name]);
            assert(result[name] == cleaned[name]);
        }
    }
}

/// The order in which the requests of a phase land does not matter: two
/// publishes that differ in nothing else leave the same registry.
pub proof fn lemma_order_does_not_matter(
    registry: Map<Seq<char>, Seq<char>>,
    tags: Seq<(Seq<char>, bool)>,
    image: Seq<char>,
    deletes: Seq<Seq<char>>,
    puts: Seq<Seq<char>>,
    other_deletes: Seq<Seq<char>>,
    other_puts: Seq<Seq<char>>,
)
    requires
        deletes.to_multiset() == floating_names(tags).to_multiset(),
        puts.to_multiset() == names(tags).to_multiset(),
        other_deletes.to_multiset() == floating_names(tags).to_multiset(),
        other_puts.to_multiset() == names(tags).to_multiset(),
    ensures
        published(registry, tags, image, deletes, puts) == published(
            registry,
            tags,
            image,
            other_deletes,
            other_puts,
        ),
{
    lemma_publish_converges(registry, tags, image, deletes, puts);
    lemma_publish_converges(registry, tags, image, other_deletes, other_puts);
    let (one, state) = published(registry, tags, image, deletes, puts);
    let (other, other_state) = published(registry, tags, image, other_deletes, other_puts);
    assert(state.tags == tags && other_state.tags == tags) by {
        lemma_publish_keeps_tags(registry, tags, image, deletes, puts);
        lemma_publish_keeps_tags(registry, tags, image, other_deletes, other_puts);
    }
    assert(one =~= other) by {
        assert forall|name: Seq<char>| one.contains_key(name) == other.contains_key(name) && (
        one.contains_key(name) ==> one[name] == other[name]) by {}
    }
}

/// Publishing again converges: a second publish under the same tags,
/// against the registry as the first one left it, ends well too. It moves
/// every tag that may be moved to the second image and leaves every other
/// tag of the publish at the image it had after the first.
pub proof fn lemma_republish_converges(
    registry: Map<Seq<char>, Seq<char>>,
    tags: Seq<(Seq<char>, bool)>,
    first_image: Seq<char>,
    first_deletes: Seq<Seq<char>>,
    first_puts: Seq<Seq<char>>,
    second_image: Seq<char>,
    second_deletes: Seq<Seq<char>>,
    second_puts: Seq<Seq<char>>,
)
    requires
        first_deletes.to_multiset() == floating_names(tags).to_multiset(),
        first_puts.to_multiset() == names(tags).to_multiset(),
        second_deletes.to_multiset() == floating_names(tags).to_multiset(),
        second_puts.to_multiset() == names(tags).to_multiset(),
    ensures
        ({
            let once = published(registry, tags, first_image, first_deletes, first_puts).0;
            let (twice, state) = published(once, tags, second_image, second_deletes, second_puts);
            &&& state.phase == PhaseView::Done
            &&& forall|name: Seq<char>|
                #![trigger names(tags).contains(name)]
                names(tags).contains(name) ==> twice.contains_key(name) && twice[name] == if floating_names(
                    tags,
                ).contains(name) {
                    second_image
                } else {
                    once[name]
                }
        }),
{
    lemma_publish_converges(registry, tags, first_image, first_deletes, first_puts);
    let once = published(registry, tags, first_image, first_deletes, first_puts).0;
    lemma_publish_converges(once, tags, second_image, second_deletes, second_puts);
    let twice = published(once, tags, second_image, second_deletes, second_puts).0;
    assert forall|name: Seq<char>| names(tags).contains(name) implies once.contains_key(
        name,
    ) && twice.contains_key(name) by {}
}

} // verus!
