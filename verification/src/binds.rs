//! Gesture binds and how they are decoded from the configuration.
//!
//! What a set of modifiers is and what an action is, and how they are decoded, is left to the
//! caller. Decoding says which text holds the modifiers and whether there is a child to take an
//! action from, and goes on with what came of them.
use vstd::prelude::*;

use crate::gesture;
use crate::gesture::Gesture;
use crate::kdl;
use crate::kdl::{Context, DecodeError, DecodeErrorView, Node};
use crate::merge;
use crate::merge::MergeWith;

verus! {

/// A gesture, the modifiers that are held down with it, and what it does.
#[derive(Debug, PartialEq)]
pub struct Bind<M, A> {
    pub modifiers: M,
    pub gesture: Gesture,
    pub action: A,
}

/// A bind whose action is not decoded yet.
#[derive(Debug, PartialEq)]
pub struct BindHead<M> {
    pub modifiers: M,
    pub gesture: Gesture,
}

/// The binds in the order in which the configuration has them.
#[derive(Debug, PartialEq)]
pub struct Binds<M, A>(pub Vec<Bind<M, A>>);

/// What decoding an action came to: the errors that were reported on the way, and the action or
/// the error that stood in its way.
pub struct ActionReply<A, E> {
    pub emitted: Vec<E>,
    pub outcome: Result<A, E>,
}

/// What came of the parts of a bind that the caller decodes.
pub struct Replies<M, A, E> {
    /// What the text before the gesture was parsed to, where there is one.
    pub modifiers: Option<Result<M, String>>,
    /// The set without modifiers.
    pub empty: M,
    /// What the first child was decoded to, where there is one.
    pub action: Option<ActionReply<A, E>>,
}

/// Modifiers, or the words in which they are refused.
pub open spec fn modifiers_view<M>(modifiers: Option<Result<M, String>>) -> Option<
    Result<M, Seq<char>>,
> {
    match modifiers {
        Some(Ok(m)) => Some(Ok(m)),
        Some(Err(reason)) => Some(Err(reason@)),
        None => None,
    }
}

/// The errors that are reported of a bind's node before anything else.
pub open spec fn node_errors<E>(node: Node) -> Seq<DecodeErrorView<E>> {
    kdl::type_name_errors::<E>(node) + kdl::argument_errors::<E>(node.arguments as int)
}

/// What a bind's node comes to before its action is decoded.
pub open spec fn head_of<M, E>(
    node: Node,
    modifiers: Option<Result<M, Seq<char>>>,
    empty: M,
) -> Result<BindHead<M>, DecodeErrorView<E>> {
    let name = node.node_name@;
    let has_modifiers = gesture::modifiers_part(name) is Some;
    match modifiers {
        Some(Err(reason)) => Err(DecodeErrorView::InvalidModifiers(reason)),
        _ => match gesture::gesture_of::<E>(has_modifiers, gesture::gesture_part(name)) {
            Err(e) => Err(e),
            Ok(gesture) => if node.children == 0 {
                Err(DecodeErrorView::MissingAction)
            } else {
                Ok(
                    BindHead {
                        modifiers: match modifiers {
                            Some(Ok(modifiers)) => modifiers,
                            _ => empty,
                        },
                        gesture,
                    },
                )
            },
        },
    }
}

/// What a bind comes to once its action is decoded.
pub open spec fn bind_of<M, A, E>(head: BindHead<M>, action: Result<A, E>) -> Result<
    Bind<M, A>,
    DecodeErrorView<E>,
> {
    match action {
        Ok(action) => Ok(Bind { modifiers: head.modifiers, gesture: head.gesture, action }),
        Err(e) => Err(DecodeErrorView::Action(e)),
    }
}

impl<A, E> ActionReply<A, E> {
    /// The errors that were reported on the way.
    pub open spec fn errors(self) -> Seq<DecodeErrorView<E>> {
        self.emitted@.map_values(|e: E| DecodeErrorView::Action(e))
    }
}

impl<M, A, E> Replies<M, A, E> {
    /// Whether there is a reply to whatever the node asks for.
    pub open spec fn fits(self, node: Node) -> bool {
        &&& self.modifiers is Some <==> gesture::modifiers_part(node.node_name@) is Some
        &&& self.action is Some <==> node.children > 0
    }

    /// What a bind's node comes to, given the replies.
    pub open spec fn decoded(self, node: Node) -> Result<Bind<M, A>, DecodeErrorView<E>> {
        match head_of::<M, E>(node, modifiers_view(self.modifiers), self.empty) {
            Err(e) => Err(e),
            Ok(head) => bind_of(head, self.action->0.outcome),
        }
    }

    /// The errors that are reported while a bind's node is decoded, given the replies. An action
    /// is only decoded where nothing before it has failed.
    pub open spec fn reported(self, node: Node) -> Seq<DecodeErrorView<E>> {
        if head_of::<M, E>(node, modifiers_view(self.modifiers), self.empty) is Ok {
            node_errors::<E>(node) + self.action->0.errors()
        } else {
            node_errors::<E>(node)
        }
    }
}

/// A decoded value, or an error with its texts as sequences of characters.
pub open spec fn result_view<T, E>(res: Result<T, DecodeError<E>>) -> Result<
    T,
    DecodeErrorView<E>,
> {
    match res {
        Ok(value) => Ok(value),
        Err(e) => Err(e@),
    }
}

impl<M> BindHead<M> {
    /// Puts a bind together with its action.
    pub fn with_action<A, E>(self, action: Result<A, E>) -> (res: Result<
        Bind<M, A>,
        DecodeError<E>,
    >)
        ensures
            result_view(res) == bind_of(self, action),
    {
        match action {
            Ok(action) => Ok(Bind { modifiers: self.modifiers, gesture: self.gesture, action }),
            Err(e) => Err(DecodeError::Action(e)),
        }
    }

    /// Decodes a bind up to its action. `modifiers` is what the text before the gesture was
    /// parsed to.
    pub fn decode_node<E>(
        node: &Node,
        modifiers: Option<Result<M, String>>,
        empty: M,
        ctx: &mut Context<E>,
    ) -> (res: Result<Self, DecodeError<E>>)
        requires
            modifiers is Some <==> gesture::modifiers_part(node.node_name@) is Some,
        ensures
            final(ctx)@ == old(ctx)@ + node_errors::<E>(*node),
            result_view(res) == head_of::<M, E>(*node, modifiers_view(modifiers), empty),
    {
        let ghost before = ctx@;
        kdl::expect_no_arguments(node, ctx);
        assert(ctx@ =~= before + node_errors::<E>(*node));
        let (text, written) = gesture::split_name(node.node_name.as_str());
        let has_modifiers = text.is_some();
        let modifiers = match modifiers {
            Some(Ok(modifiers)) => modifiers,
            Some(Err(reason)) => {
                return Err(DecodeError::InvalidModifiers(reason));
            },
            None => empty,
        };
        let gesture = match gesture::parse_gesture::<E>(has_modifiers, written) {
            Ok(gesture) => gesture,
            Err(e) => {
                return Err(e);
            },
        };
        if node.children == 0 {
            return Err(DecodeError::MissingAction);
        }
        Ok(BindHead { modifiers, gesture })
    }
}

impl<M, A> Bind<M, A> {
    /// Decodes a bind, given what came of the parts that the caller decodes.
    pub fn decode_node<E>(node: &Node, replies: Replies<M, A, E>, ctx: &mut Context<E>) -> (res:
        Result<Self, DecodeError<E>>)
        requires
            replies.fits(*node),
        ensures
            final(ctx)@ == old(ctx)@ + replies.reported(*node),
            result_view(res) == replies.decoded(*node),
    {
        let ghost before = ctx@;
        let head = match BindHead::decode_node(node, replies.modifiers, replies.empty, ctx) {
            Ok(head) => head,
            Err(e) => {
                return Err(e);
            },
        };
        match replies.action {
            Some(reply) => {
                let ghost after_head = ctx@;
                let ghost emitted = reply.emitted@;
                for e in it: reply.emitted
                    invariant
                        it.seq() == emitted,
                        ctx@ == after_head + emitted.take(it.index()).map_values(
                            |e: E| DecodeErrorView::Action(e),
                        ),
                {
                    ctx.emit_error(DecodeError::Action(e));
                    assert(emitted.take(it.index() + 1) =~= emitted.take(it.index()).push(e));
                    assert(ctx@ =~= after_head + emitted.take(it.index() + 1).map_values(
                        |e: E| DecodeErrorView::Action(e),
                    ));
                }
                assert(emitted.take(emitted.len() as int) =~= emitted);
                assert(ctx@ =~= before + replies.reported(*node));
                head.with_action(reply.outcome)
            },
            None => Err(DecodeError::MissingAction),
        }
    }
}

/// A child of the node that holds the binds, with what came of the parts that the caller decodes.
pub struct BindNode<M, A, E> {
    pub node: Node,
    pub replies: Replies<M, A, E>,
}

impl<M, A, E> BindNode<M, A, E> {
    /// What the child comes to.
    pub open spec fn decoded(self) -> Result<Bind<M, A>, DecodeErrorView<E>> {
        self.replies.decoded(self.node)
    }

    /// The errors that are reported of the child: those on the way, and the one that stood in the
    /// way of a bind.
    pub open spec fn errors(self) -> Seq<DecodeErrorView<E>> {
        let reported = self.replies.reported(self.node);
        match self.decoded() {
            Ok(_) => reported,
            Err(e) => reported.push(e),
        }
    }
}

/// The binds that children come to: one for each child that can be decoded, in their order.
pub open spec fn binds_of<M, A, E>(children: Seq<BindNode<M, A, E>>) -> Seq<Bind<M, A>> {
    children.filter(|child: BindNode<M, A, E>| child.decoded() is Ok).map_values(
        |child: BindNode<M, A, E>| child.decoded()->Ok_0,
    )
}

/// The errors that are reported of children, child by child.
pub open spec fn errors_of<M, A, E>(children: Seq<BindNode<M, A, E>>) -> Seq<DecodeErrorView<E>>
    decreases children.len(),
{
    if children.len() == 0 {
        Seq::empty()
    } else {
        errors_of(children.drop_last()) + children.last().errors()
    }
}

/// One more child adds its bind, where it can be decoded.
proof fn binds_of_one_more<M, A, E>(
    children: Seq<BindNode<M, A, E>>,
    child: BindNode<M, A, E>,
)
    ensures
        binds_of(children.push(child)) == match child.decoded() {
            Ok(bind) => binds_of(children).push(bind),
            Err(_) => binds_of(children),
        },
        errors_of(children.push(child)) == errors_of(children) + child.errors(),
{
    let all = children.push(child);
    assert(all.drop_last() =~= children);
    reveal(Seq::filter);
    let ok = |child: BindNode<M, A, E>| child.decoded() is Ok;
    if child.decoded() is Ok {
        assert(all.filter(ok) == children.filter(ok).push(child));
        assert(binds_of(all) =~= binds_of(children).push(child.decoded()->Ok_0));
    } else {
        assert(all.filter(ok) == children.filter(ok));
    }
}

/// Children put together come to their binds put together, and their errors are reported one
/// after the other. No children come to no binds and no errors.
pub proof fn children_add_up<M, A, E>(
    first: Seq<BindNode<M, A, E>>,
    second: Seq<BindNode<M, A, E>>,
)
    ensures
        binds_of(first + second) == binds_of(first) + binds_of(second),
        errors_of(first + second) == errors_of(first) + errors_of(second),
        binds_of(Seq::<BindNode<M, A, E>>::empty()) == Seq::<Bind<M, A>>::empty(),
        errors_of(Seq::<BindNode<M, A, E>>::empty()) == Seq::<DecodeErrorView<E>>::empty(),
    decreases second.len(),
{
    reveal(Seq::filter);
    assert(binds_of(Seq::<BindNode<M, A, E>>::empty()) =~= Seq::empty());
    if second.len() == 0 {
        assert(first + second =~= first);
        assert(second =~= Seq::empty());
        assert(binds_of(first) + binds_of(second) =~= binds_of(first));
        assert(errors_of(first) + errors_of(second) =~= errors_of(first));
    } else {
        let rest = second.drop_last();
        let child = second.last();
        children_add_up(first, rest);
        assert(rest.push(child) =~= second);
        assert((first + rest).push(child) =~= first + second);
        binds_of_one_more(rest, child);
        binds_of_one_more(first + rest, child);
        assert(binds_of(first + second) =~= binds_of(first) + binds_of(second));
        assert(errors_of(first + second) =~= errors_of(first) + errors_of(second));
    }
}

impl<M, A> Binds<M, A> {
    /// Takes in what a child came to: a bind is kept, an error reported.
    pub fn take_child<E>(&mut self, outcome: Result<Bind<M, A>, DecodeError<E>>, ctx: &mut Context<
        E,
    >)
        ensures
            match outcome {
                Ok(bind) => {
                    &&& final(self).0@ == old(self).0@.push(bind)
                    &&& final(ctx)@ == old(ctx)@
                },
                Err(e) => {
                    &&& final(self).0@ == old(self).0@
                    &&& final(ctx)@ == old(ctx)@.push(e@)
                },
            },
    {
        match outcome {
            Ok(bind) => {
                self.0.push(bind);
            },
            Err(e) => {
                ctx.emit_error(e);
            },
        }
    }

    /// Decodes the binds. A child that cannot be decoded is reported and left out.
    pub fn decode_node<E>(
        node: &Node,
        children: Vec<BindNode<M, A, E>>,
        ctx: &mut Context<E>,
    ) -> (res: Result<Self, DecodeError<E>>)
        requires
            children@.len() == node.children,
            forall|i: int|
                #![trigger children@[i]]
                0 <= i < children@.len() ==> children@[i].replies.fits(children@[i].node),
        ensures
            res is Ok,
            res->Ok_0.0@ == binds_of(children@),
            final(ctx)@ == old(ctx)@ + kdl::type_name_errors::<E>(*node) + kdl::argument_errors::<
                E,
            >(node.arguments as int) + kdl::property_errors::<E>(node.properties as int)
                + errors_of(children@),
    {
        kdl::expect_only_children(node, ctx);
        let ghost before = ctx@;
        let ghost all = children@;
        let mut binds: Binds<M, A> = Binds(Vec::new());
        proof {
            reveal(Seq::filter);
            assert(binds.0@ =~= binds_of(all.take(0)));
            assert(ctx@ =~= before + errors_of(all.take(0)));
        }
        for child in it: children
            invariant
                it.seq() == all,
                forall|i: int|
                    #![trigger all[i]]
                    0 <= i < all.len() ==> all[i].replies.fits(all[i].node),
                binds.0@ == binds_of(all.take(it.index())),
                ctx@ == before + errors_of(all.take(it.index())),
        {
            let ghost done = all.take(it.index());
            let ghost so_far = ctx@;
            proof {
                assert(child == all[it.index()]);
                assert(all.take(it.index() + 1) =~= done.push(child));
                binds_of_one_more(done, child);
            }
            let outcome = Bind::decode_node(&child.node, child.replies, ctx);
            binds.take_child(outcome, ctx);
            assert(ctx@ =~= before + errors_of(all.take(it.index() + 1)));
        }
        assert(all.take(all.len() as int) =~= all);
        Ok(binds)
    }
}

/// Whether a bind is a clone of another.
pub open spec fn bind_cloned<M: Clone, A: Clone>(bind: Bind<M, A>, clone: Bind<M, A>) -> bool {
    &&& cloned(bind.modifiers, clone.modifiers)
    &&& bind.gesture == clone.gesture
    &&& cloned(bind.action, clone.action)
}

/// Whether binds are clones of others, one by one.
pub open spec fn binds_cloned<M: Clone, A: Clone>(binds: Binds<M, A>, clone: Binds<M, A>) -> bool {
    &&& clone.0@.len() == binds.0@.len()
    &&& forall|i: int|
        #![trigger clone.0@[i]]
        #![trigger binds.0@[i]]
        0 <= i < binds.0@.len() ==> bind_cloned(binds.0@[i], clone.0@[i])
}

impl<M: Clone, A: Clone> Clone for Bind<M, A> {
    fn clone(&self) -> (res: Self)
        ensures
            bind_cloned(*self, res),
    {
        Bind {
            modifiers: self.modifiers.clone(),
            gesture: self.gesture,
            action: self.action.clone(),
        }
    }
}

impl<M: Clone, A: Clone> Clone for Binds<M, A> {
    fn clone(&self) -> (res: Self)
        ensures
            binds_cloned(*self, res),
    {
        let mut res: Binds<M, A> = Binds(Vec::new());
        res.merge_with(self);
        res
    }
}

impl<M, A> Default for Binds<M, A> {
    fn default() -> (res: Self)
        ensures
            res.0@.len() == 0,
    {
        Binds(Vec::new())
    }
}

/// The binds of a part are cloned and put behind those that were there before.
impl<M: Clone, A: Clone> MergeWith<Binds<M, A>> for Binds<M, A> {
    open spec fn merges_to(base: Self, part: Binds<M, A>, merged: Self) -> bool {
        &&& merged.0@.len() == base.0@.len() + part.0@.len()
        &&& merged.0@.take(base.0@.len() as int) == base.0@
        &&& forall|i: int|
            #![trigger part.0@[i]]
            0 <= i < part.0@.len() ==> bind_cloned(part.0@[i], merged.0@[base.0@.len() + i])
    }

    fn merge_with(&mut self, part: &Binds<M, A>) {
        let ghost before = self.0@;
        assert(before.take(before.len() as int) =~= before);
        let mut i: usize = 0;
        while i < part.0.len()
            invariant
                i <= part.0@.len(),
                self.0@.len() == before.len() + i,
                self.0@.take(before.len() as int) == before,
                forall|j: int|
                    #![trigger part.0@[j]]
                    0 <= j < i ==> bind_cloned(part.0@[j], self.0@[before.len() + j]),
            decreases part.0@.len() - i,
        {
            let ghost so_far = self.0@;
            self.0.push(part.0[i].clone());
            assert(self.0@.take(before.len() as int) =~= so_far.take(before.len() as int));
            i += 1;
        }
    }
}

/// A clone of binds has, one by one, the same gestures and clones of the modifiers and actions;
/// where clones equal what they are cloned from, it has the same binds.
pub proof fn clone_has_the_same_gestures<M: Clone, A: Clone>(
    binds: Binds<M, A>,
    clone: Binds<M, A>,
)
    requires
        binds_cloned(binds, clone),
    ensures
        clone.0@.len() == binds.0@.len(),
        forall|i: int|
            #![trigger clone.0@[i]]
            0 <= i < clone.0@.len() ==> {
                &&& clone.0@[i].gesture == binds.0@[i].gesture
                &&& cloned(binds.0@[i].modifiers, clone.0@[i].modifiers)
                &&& cloned(binds.0@[i].action, clone.0@[i].action)
            },
        merge::clones_are_equal::<M>() && merge::clones_are_equal::<A>() ==> clone.0@ == binds.0@,
{
    assert forall|i: int|
        #![trigger clone.0@[i]]
        0 <= i < clone.0@.len() implies bind_cloned(binds.0@[i], clone.0@[i]) by {}
    if merge::clones_are_equal::<M>() && merge::clones_are_equal::<A>() {
        assert forall|i: int| 0 <= i < clone.0@.len() implies clone.0@[i] == binds.0@[i] by {
            assert(bind_cloned(binds.0@[i], clone.0@[i]));
        }
        assert(clone.0@ =~= binds.0@);
    }
}

/// Where clones equal what they are cloned from, merging puts the binds together.
pub proof fn merged_exactly<M: Clone, A: Clone>(
    base: Binds<M, A>,
    part: Binds<M, A>,
    merged: Binds<M, A>,
)
    requires
        Binds::merges_to(base, part, merged),
        merge::clones_are_equal::<M>(),
        merge::clones_are_equal::<A>(),
    ensures
        merged.0@ == base.0@ + part.0@,
{
    assert forall|i: int| 0 <= i < merged.0@.len() implies merged.0@[i] == (base.0@
        + part.0@)[i] by {
        if i < base.0@.len() {
            assert(merged.0@.take(base.0@.len() as int)[i] == base.0@[i]);
        } else {
            assert(bind_cloned(part.0@[i - base.0@.len()], merged.0@[i]));
        }
    }
    assert(merged.0@ =~= base.0@ + part.0@);
}

/// Decoding children put together gives what merging their binds gives: first the one's binds,
/// then clones of the other's.
pub proof fn decoded_together_or_merged<M: Clone, A: Clone, E>(
    first: Seq<BindNode<M, A, E>>,
    second: Seq<BindNode<M, A, E>>,
    base: Binds<M, A>,
    part: Binds<M, A>,
    merged: Binds<M, A>,
)
    requires
        base.0@ == binds_of(first),
        part.0@ == binds_of(second),
        Binds::merges_to(base, part, merged),
    ensures
        merged.0@.len() == binds_of(first + second).len(),
        forall|i: int|
            #![trigger merged.0@[i]]
            0 <= i < merged.0@.len() ==> if i < base.0@.len() {
                merged.0@[i] == binds_of(first + second)[i]
            } else {
                bind_cloned(binds_of(first + second)[i], merged.0@[i])
            },
        merge::clones_are_equal::<M>() && merge::clones_are_equal::<A>() ==> merged.0@ == binds_of(
            first + second,
        ),
{
    children_add_up(first, second);
    assert forall|i: int|
        #![trigger merged.0@[i]]
        0 <= i < merged.0@.len() implies if i < base.0@.len() {
        merged.0@[i] == binds_of(first + second)[i]
    } else {
        bind_cloned(binds_of(first + second)[i], merged.0@[i])
    } by {
        if i < base.0@.len() {
            assert(merged.0@.take(base.0@.len() as int)[i] == base.0@[i]);
        } else {
            assert(bind_cloned(part.0@[i - base.0@.len()], merged.0@[i]));
        }
    }
    if merge::clones_are_equal::<M>() && merge::clones_are_equal::<A>() {
        merged_exactly(base, part, merged);
    }
}

/// It does not matter whether binds are merged from the left or from the right: either way the
/// first come as they are, then clones of the second, then clones of the third, or, from the
/// right, clones of their clones.
pub proof fn merging_is_associative<M: Clone, A: Clone>(
    first: Binds<M, A>,
    second: Binds<M, A>,
    third: Binds<M, A>,
    first_two: Binds<M, A>,
    from_left: Binds<M, A>,
    last_two: Binds<M, A>,
    from_right: Binds<M, A>,
)
    requires
        Binds::merges_to(first, second, first_two),
        Binds::merges_to(first_two, third, from_left),
        Binds::merges_to(second, third, last_two),
        Binds::merges_to(first, last_two, from_right),
    ensures
        from_left.0@.len() == first.0@.len() + second.0@.len() + third.0@.len(),
        from_right.0@.len() == from_left.0@.len(),
        forall|i: int|
            #![trigger first.0@[i]]
            0 <= i < first.0@.len() ==> from_left.0@[i] == first.0@[i] && from_right.0@[i]
                == first.0@[i],
        forall|i: int|
            #![trigger second.0@[i]]
            0 <= i < second.0@.len() ==> {
                &&& bind_cloned(second.0@[i], from_left.0@[first.0@.len() + i])
                &&& bind_cloned(second.0@[i], from_right.0@[first.0@.len() + i])
            },
        forall|i: int|
            #![trigger third.0@[i]]
            0 <= i < third.0@.len() ==> {
                let at = first.0@.len() + second.0@.len() + i;
                &&& bind_cloned(third.0@[i], from_left.0@[at])
                &&& bind_cloned(third.0@[i], last_two.0@[second.0@.len() + i])
                &&& bind_cloned(last_two.0@[second.0@.len() + i], from_right.0@[at])
            },
        merge::clones_are_equal::<M>() && merge::clones_are_equal::<A>() ==> from_left.0@
            == from_right.0@ && from_left.0@ == first.0@ + second.0@ + third.0@,
{
    let a = first.0@.len() as int;
    let b = second.0@.len() as int;
    assert forall|i: int|
        #![trigger first.0@[i]]
        0 <= i < a implies from_left.0@[i] == first.0@[i] && from_right.0@[i] == first.0@[i] by {
        assert(first_two.0@.take(a)[i] == first.0@[i]);
        assert(from_left.0@.take(a + b)[i] == first_two.0@[i]);
        assert(from_right.0@.take(a)[i] == first.0@[i]);
    }
    assert forall|i: int|
        #![trigger second.0@[i]]
        0 <= i < b implies {
        &&& bind_cloned(second.0@[i], from_left.0@[a + i])
        &&& bind_cloned(second.0@[i], from_right.0@[a + i])
    } by {
        assert(from_left.0@.take(a + b)[a + i] == first_two.0@[a + i]);
        assert(last_two.0@.take(b)[i] == second.0@[i]);
        assert(bind_cloned(last_two.0@[i], from_right.0@[a + i]));
    }
    assert forall|i: int|
        #![trigger third.0@[i]]
        0 <= i < third.0@.len() implies {
        &&& bind_cloned(third.0@[i], from_left.0@[a + b + i])
        &&& bind_cloned(third.0@[i], last_two.0@[b + i])
        &&& bind_cloned(last_two.0@[b + i], from_right.0@[a + b + i])
    } by {
        assert(first_two.0@.len() + i == a + b + i);
        assert(a + (b + i) == a + b + i);
        assert(bind_cloned(last_two.0@[b + i], from_right.0@[a + (b + i)]));
    }
    if merge::clones_are_equal::<M>() && merge::clones_are_equal::<A>() {
        merged_exactly(first, second, first_two);
        merged_exactly(first_two, third, from_left);
        merged_exactly(second, third, last_two);
        merged_exactly(first, last_two, from_right);
        assert(first.0@ + (second.0@ + third.0@) =~= first.0@ + second.0@ + third.0@);
    }
}

/// Merging no binds changes nothing, and merging into no binds gives clones one by one.
pub proof fn no_binds_are_neutral<M: Clone, A: Clone>(
    none: Binds<M, A>,
    binds: Binds<M, A>,
    merged: Binds<M, A>,
)
    requires
        none.0@.len() == 0,
    ensures
        Binds::merges_to(binds, none, merged) <==> merged.0@ == binds.0@,
        Binds::merges_to(none, binds, merged) <==> binds_cloned(binds, merged),
        Binds::merges_to(none, binds, merged) && merge::clones_are_equal::<M>()
            && merge::clones_are_equal::<A>() ==> merged.0@ == binds.0@,
{
    assert(binds.0@.take(binds.0@.len() as int) =~= binds.0@);
    assert(merged.0@.take(merged.0@.len() as int) =~= merged.0@);
    assert(merged.0@.take(0) =~= none.0@);
    if Binds::merges_to(none, binds, merged) {
        assert forall|i: int|
            #![trigger merged.0@[i]]
            #![trigger binds.0@[i]]
            0 <= i < binds.0@.len() implies bind_cloned(binds.0@[i], merged.0@[i]) by {
            assert(bind_cloned(binds.0@[i], merged.0@[none.0@.len() + i]));
        }
        if merge::clones_are_equal::<M>() && merge::clones_are_equal::<A>() {
            merged_exactly(none, binds, merged);
            assert(none.0@ + binds.0@ =~= binds.0@);
        }
    }
    if binds_cloned(binds, merged) {
        assert forall|i: int|
            #![trigger binds.0@[i]]
            0 <= i < binds.0@.len() implies bind_cloned(
            binds.0@[i],
            merged.0@[none.0@.len() + i],
        ) by {}
    }
}

} // verus!
