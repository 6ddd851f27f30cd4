//! Tags: the names under which entities are found, counted, taken in and
//! taken out.
//!
//! A tag is matched exactly, character for character. Several entities may
//! share a tag unless the world's policy forbids it.

use crate::entity_container::EntityContainerView;
use crate::world::{EntityTagDuplicationBehaviour, Insertion};
use vstd::prelude::*;

verus! {

/// Whether one of the containers has the tag.
pub open spec fn has_tag<E>(containers: Seq<EntityContainerView<E>>, tag: Seq<char>) -> bool {
    exists|i: int| 0 <= i < containers.len() && (#[trigger] containers[i]).configuration.tag == tag
}

/// How many of the containers have the tag.
pub open spec fn count_tag<E>(containers: Seq<EntityContainerView<E>>, tag: Seq<char>) -> nat
    decreases containers.len(),
{
    if containers.len() == 0 {
        0
    } else if containers.last().configuration.tag == tag {
        count_tag(containers.drop_last(), tag) + 1
    } else {
        count_tag(containers.drop_last(), tag)
    }
}

/// The containers that are left, in their order, when every one with a tag
/// of the set is taken out.
pub open spec fn without_tags<E>(
    containers: Seq<EntityContainerView<E>>,
    tags: Set<Seq<char>>,
) -> Seq<EntityContainerView<E>>
    decreases containers.len(),
{
    if containers.len() == 0 {
        Seq::empty()
    } else if tags.contains(containers.last().configuration.tag) {
        without_tags(containers.drop_last(), tags)
    } else {
        without_tags(containers.drop_last(), tags).push(containers.last())
    }
}

/// Whether a world with this policy and these containers takes in an entity
/// with the tag.
pub open spec fn admits<E>(
    policy: EntityTagDuplicationBehaviour,
    containers: Seq<EntityContainerView<E>>,
    tag: Seq<char>,
) -> bool {
    policy != EntityTagDuplicationBehaviour::Reject || !has_tag(containers, tag)
}

/// The containers once one more is offered: it goes in behind all others if
/// the world takes it in.
pub open spec fn offered<E>(
    policy: EntityTagDuplicationBehaviour,
    containers: Seq<EntityContainerView<E>>,
    container: EntityContainerView<E>,
) -> Seq<EntityContainerView<E>> {
    if admits(policy, containers, container.configuration.tag) {
        containers.push(container)
    } else {
        containers
    }
}

/// The containers once a run of others has been offered, one after the
/// other.
pub open spec fn offered_all<E>(
    policy: EntityTagDuplicationBehaviour,
    containers: Seq<EntityContainerView<E>>,
    more: Seq<EntityContainerView<E>>,
) -> Seq<EntityContainerView<E>>
    decreases more.len(),
{
    if more.len() == 0 {
        containers
    } else {
        offered(policy, offered_all(policy, containers, more.drop_last()), more.last())
    }
}

/// How an admitted entity with the tag comes in.
pub open spec fn insertion<E>(
    policy: EntityTagDuplicationBehaviour,
    containers: Seq<EntityContainerView<E>>,
    tag: Seq<char>,
) -> Insertion {
    if policy == EntityTagDuplicationBehaviour::WarnOnDuplication && has_tag(containers, tag) {
        Insertion::InsertedDuplicate
    } else {
        Insertion::Inserted
    }
}

/// Containers without the tag count none with it.
pub proof fn lemma_count_tag_absent<E>(containers: Seq<EntityContainerView<E>>, tag: Seq<char>)
    ensures
        has_tag(containers, tag) <==> count_tag(containers, tag) > 0,
    decreases containers.len(),
{
    if containers.len() > 0 {
        let front = containers.drop_last();
        lemma_count_tag_absent(front, tag);
        if has_tag(front, tag) {
            let i = choose|i: int|
                0 <= i < front.len() && (#[trigger] front[i]).configuration.tag == tag;
            assert(containers[i].configuration.tag == tag);
        }
        if containers.last().configuration.tag == tag {
            assert(containers[containers.len() - 1].configuration.tag == tag);
        }
        if has_tag(containers, tag) && containers.last().configuration.tag != tag {
            let i = choose|i: int|
                0 <= i < containers.len() && (#[trigger] containers[i]).configuration.tag == tag;
            assert(front[i].configuration.tag == tag);
        }
    }
}

/// How many containers have a tag depends on the configurations alone.
pub proof fn lemma_count_tag_by_configuration<E>(
    first: Seq<EntityContainerView<E>>,
    second: Seq<EntityContainerView<E>>,
    tag: Seq<char>,
)
    requires
        first.len() == second.len(),
        forall|i: int|
            0 <= i < first.len() ==> (#[trigger] second[i]).configuration == first[i].configuration,
    ensures
        count_tag(first, tag) == count_tag(second, tag),
    decreases first.len(),
{
    if first.len() > 0 {
        assert forall|i: int| 0 <= i < first.drop_last().len() implies (
        #[trigger] second.drop_last()[i]).configuration == first.drop_last()[i].configuration by {
            assert(second[i].configuration == first[i].configuration);
        }
        lemma_count_tag_by_configuration(first.drop_last(), second.drop_last(), tag);
        assert(second[second.len() - 1].configuration == first[first.len() - 1].configuration);
    }
}

/// The policy on taken tags. Offer two containers under one tag, one after
/// the other, to a world that has none under that tag. The first goes in
/// without remark whatever the policy. A world that rejects duplicates then
/// refuses the second and keeps one container under the tag. A world that
/// allows duplicates takes the second in without remark, and a world that
/// warns takes it in with a remark: both then hold two under the tag.
pub proof fn lemma_duplication_policy<E>(
    policy: EntityTagDuplicationBehaviour,
    containers: Seq<EntityContainerView<E>>,
    first: EntityContainerView<E>,
    second: EntityContainerView<E>,
)
    requires
        first.configuration.tag == second.configuration.tag,
        !has_tag(containers, first.configuration.tag),
    ensures
        ({
            let tag = first.configuration.tag;
            let once = offered(policy, containers, first);
            let twice = offered(policy, once, second);
            &&& admits(policy, containers, tag)
            &&& insertion(policy, containers, tag) == Insertion::Inserted
            &&& count_tag(once, tag) == 1
            &&& policy == EntityTagDuplicationBehaviour::Reject ==> !admits(policy, once, tag)
                && twice == once && count_tag(twice, tag) == 1
            &&& policy == EntityTagDuplicationBehaviour::Allow ==> admits(policy, once, tag)
                && insertion(policy, once, tag) == Insertion::Inserted && count_tag(twice, tag)
                == 2
            &&& policy == EntityTagDuplicationBehaviour::WarnOnDuplication ==> admits(
                policy,
                once,
                tag,
            ) && insertion(policy, once, tag) == Insertion::InsertedDuplicate && count_tag(
                twice,
                tag,
            ) == 2
        }),
{
    let tag = first.configuration.tag;
    let once = containers.push(first);
    lemma_count_tag_absent(containers, tag);
    assert(once.drop_last() =~= containers);
    assert(once[once.len() - 1].configuration.tag == tag);
    assert(once.last() == first);
    assert(admits(policy, containers, tag));
    assert(offered(policy, containers, first) == once);
    assert(count_tag(once, tag) == 1);
    assert(has_tag(once, tag));
    let both = once.push(second);
    assert(both.drop_last() =~= once);
    assert(both.last() == second);
    assert(count_tag(both, tag) == 2);
}

/// What a removal leaves. No container that is left has a tag of the set,
/// and of every other tag as many containers are left as there were.
pub proof fn lemma_without_tags<E>(containers: Seq<EntityContainerView<E>>, tags: Set<Seq<char>>)
    ensures
        without_tags(containers, tags).len() <= containers.len(),
        forall|tag: Seq<char>|
            tags.contains(tag) ==> !has_tag(without_tags(containers, tags), tag) && count_tag(
                without_tags(containers, tags),
                tag,
            ) == 0,
        forall|tag: Seq<char>|
            !tags.contains(tag) ==> count_tag(without_tags(containers, tags), tag) == count_tag(
                containers,
                tag,
            ),
    decreases containers.len(),
{
    let left = without_tags(containers, tags);
    if containers.len() > 0 {
        let front = containers.drop_last();
        lemma_without_tags(front, tags);
        let front_left = without_tags(front, tags);
        if !tags.contains(containers.last().configuration.tag) {
            assert(left.drop_last() =~= front_left);
        }
        assert forall|tag: Seq<char>| tags.contains(tag) implies !has_tag(left, tag) && count_tag(
            left,
            tag,
        ) == 0 by {
            lemma_count_tag_absent(left, tag);
        }
    } else {
        assert forall|tag: Seq<char>| tags.contains(tag) implies !has_tag(left, tag) by {}
    }
}

} // verus!
