//! Every gesture can be written in a bind's name, and reading the name gives it back.
use vstd::prelude::*;

use crate::binds;
use crate::binds::{Bind, BindHead, BindNode, Replies};
use crate::gesture;
use crate::gesture::{Gesture, PinchType, SwipeType};
use crate::kdl;
use crate::kdl::{Context, DecodeError, DecodeErrorView, Node};
use crate::text;

verus! {

/// How a gesture is written, behind modifiers or without them.
pub open spec fn written(has_modifiers: bool, gesture: Gesture) -> Seq<char> {
    match gesture {
        Gesture::Swipe(fingers, swipe_type) => {
            let swipe = text::digits_of(fingers) + seq!['-'] + swipe_type.name();
            if has_modifiers {
                swipe
            } else {
                seq!['_'] + swipe
            }
        },
        Gesture::Pinch(pinch_type) => pinch_type.name(),
    }
}

/// The name of a bind.
pub open spec fn written_name(modifiers: Option<Seq<char>>, gesture: Gesture) -> Seq<char> {
    match modifiers {
        Some(modifiers) => modifiers + seq!['+'] + written(true, gesture),
        None => written(false, gesture),
    }
}

proof fn swipe_names()
    ensures
        forall|t: SwipeType|
            {
                &&& SwipeType::named(#[trigger] t.name()) == Some(t)
                &&& t.name().len() > 0
                &&& !t.name().contains('-')
                &&& !t.name().contains('+')
            },
{
    reveal_strlit("Swipe");
    reveal_strlit("SwipeUp");
    reveal_strlit("SwipeDown");
    reveal_strlit("SwipeLeft");
    reveal_strlit("SwipeRight");
    reveal_strlit("SwipeVertical");
    reveal_strlit("SwipeHorizontal");
    assert forall|t: SwipeType|
        {
            &&& SwipeType::named(#[trigger] t.name()) == Some(t)
            &&& t.name().len() > 0
            &&& !t.name().contains('-')
            &&& !t.name().contains('+')
        } by {
        let s = t.name();
        assert("Swipe"@.len() == 5 && "SwipeUp"@.len() == 7 && "SwipeDown"@.len() == 9);
        assert("SwipeLeft"@.len() == 9 && "SwipeRight"@.len() == 10);
        assert("SwipeVertical"@.len() == 13 && "SwipeHorizontal"@.len() == 15);
        assert("SwipeDown"@[5] == 'D');
        assert("SwipeLeft"@[5] == 'L');
        assert forall|i: int| 0 <= i < s.len() implies s[i] != '-' && s[i] != '+' by {
            assert(i == 0 || i == 1 || i == 2 || i == 3 || i == 4 || i == 5 || i == 6 || i == 7 || i
                == 8 || i == 9 || i == 10 || i == 11 || i == 12 || i == 13 || i == 14);
        }
    }
}

proof fn pinch_names()
    ensures
        forall|t: PinchType|
            {
                &&& PinchType::named(#[trigger] t.name()) == Some(t)
                &&& t.name().len() > 0
                &&& t.name()[0] == 'P'
                &&& !t.name().contains('+')
            },
{
    reveal_strlit("Pinch");
    reveal_strlit("PinchIn");
    reveal_strlit("PinchOut");
    assert forall|t: PinchType|
        {
            &&& PinchType::named(#[trigger] t.name()) == Some(t)
            &&& t.name().len() > 0
            &&& t.name()[0] == 'P'
            &&& !t.name().contains('+')
        } by {
        let s = t.name();
        assert forall|i: int| 0 <= i < s.len() implies s[i] != '+' by {
            assert(i == 0 || i == 1 || i == 2 || i == 3 || i == 4 || i == 5 || i == 6 || i == 7);
        }
    }
}

/// A text names a type of swipe if and only if it is that type's name.
pub proof fn swipe_name_is_unique(s: Seq<char>, swipe_type: SwipeType)
    ensures
        SwipeType::named(s) == Some(swipe_type) <==> s == swipe_type.name(),
{
    swipe_names();
}

/// A text names a type of pinch if and only if it is that type's name.
pub proof fn pinch_name_is_unique(s: Seq<char>, pinch_type: PinchType)
    ensures
        PinchType::named(s) == Some(pinch_type) <==> s == pinch_type.name(),
{
    pinch_names();
}

proof fn written_has_no_plus(has_modifiers: bool, gesture: Gesture)
    ensures
        !written(has_modifiers, gesture).contains('+'),
{
    swipe_names();
    pinch_names();
    let s = written(has_modifiers, gesture);
    if let Gesture::Swipe(fingers, swipe_type) = gesture {
        let digits = text::digits_of(fingers);
        let name = swipe_type.name();
        text::byte_written_then_read(fingers);
        assert forall|i: int| 0 <= i < s.len() implies s[i] != '+' by {
            let at = if has_modifiers {
                i
            } else {
                i - 1
            };
            if 0 <= at < digits.len() {
                assert(s[i] == digits[at]);
                assert(text::is_digit(digits[at]));
            } else if at > digits.len() {
                assert(s[i] == name[at - digits.len() - 1]);
                assert(name.contains(name[at - digits.len() - 1]));
            }
        }
    }
}

/// Reading a written swipe gives its number of fingers and its type.
proof fn swipe_written_then_read<E>(fingers: u8, swipe_type: SwipeType)
    ensures
        gesture::swipe_of::<E>(text::digits_of(fingers) + seq!['-'] + swipe_type.name()) == Ok::<
            (u8, SwipeType),
            DecodeErrorView<E>,
        >((fingers, swipe_type)),
{
    swipe_names();
    text::byte_written_then_read(fingers);
    let digits = text::digits_of(fingers);
    let name = swipe_type.name();
    let s = digits + seq!['-'] + name;
    s.index_of_first_ensures('-');
    name.index_of_first_ensures('-');
    assert(s[digits.len() as int] == '-');
    assert(s.contains('-'));
    let at = s.index_of_first('-')->0;
    if at < digits.len() {
        assert(s[at] == digits[at]);
        assert(text::is_digit(digits[at]));
    }
    assert(at == digits.len());
    assert(s.take(at) =~= digits);
    assert(s.skip(at + 1) =~= name);
}

/// Reading a written gesture gives the gesture, behind modifiers and without them.
pub proof fn gesture_written_then_read<E>(has_modifiers: bool, gesture: Gesture)
    ensures
        gesture::gesture_of::<E>(has_modifiers, written(has_modifiers, gesture)) == Ok::<
            Gesture,
            DecodeErrorView<E>,
        >(gesture),
{
    let s = written(has_modifiers, gesture);
    match gesture {
        Gesture::Swipe(fingers, swipe_type) => {
            let swipe = text::digits_of(fingers) + seq!['-'] + swipe_type.name();
            text::byte_written_then_read(fingers);
            swipe_written_then_read::<E>(fingers, swipe_type);
            if has_modifiers {
                assert(text::is_digit(s[0]));
            } else {
                assert(s.skip(1) =~= swipe);
            }
        },
        Gesture::Pinch(pinch_type) => {
            pinch_names();
        },
    }
}

/// Cutting a written name gives its modifiers, whatever they are, and its gesture.
pub proof fn name_written_then_cut(modifiers: Option<Seq<char>>, gesture: Gesture)
    ensures
        gesture::modifiers_part(written_name(modifiers, gesture)) == modifiers,
        gesture::gesture_part(written_name(modifiers, gesture)) == written(
            modifiers is Some,
            gesture,
        ),
{
    let name = written_name(modifiers, gesture);
    let g = written(modifiers is Some, gesture);
    written_has_no_plus(modifiers is Some, gesture);
    name.index_of_last_ensures('+');
    if let Some(m) = modifiers {
        assert(name[m.len() as int] == '+');
        assert(name.contains('+'));
        let at = name.index_of_last('+')->0;
        if at > m.len() {
            assert(name[at] == g[at - m.len() - 1]);
            assert(g.contains(g[at - m.len() - 1]));
        }
        assert(at == m.len());
        assert(name.take(at) =~= m);
        assert(name.skip(at + 1) =~= g);
    }
}

/// Decoding a node whose name writes modifiers and a gesture gives that gesture with what the
/// modifiers were parsed to.
pub proof fn bind_written_then_decoded<M, E>(
    node: Node,
    modifiers: Option<(Seq<char>, M)>,
    empty: M,
    gesture: Gesture,
)
    requires
        node.children > 0,
        node.node_name@ == written_name(
            match modifiers {
                Some((text, _)) => Some(text),
                None => None,
            },
            gesture,
        ),
    ensures
        binds::head_of::<M, E>(
            node,
            match modifiers {
                Some((_, parsed)) => Some(Ok::<M, Seq<char>>(parsed)),
                None => None,
            },
            empty,
        ) == Ok::<BindHead<M>, DecodeErrorView<E>>(
            BindHead {
                modifiers: match modifiers {
                    Some((_, parsed)) => parsed,
                    None => empty,
                },
                gesture,
            },
        ),
{
    name_written_then_cut(
        match modifiers {
            Some((text, _)) => Some(text),
            None => None,
        },
        gesture,
    );
    gesture_written_then_read::<E>(modifiers is Some, gesture);
}

/// The text of a gesture has no plus sign, so that its number of fingers has no sign either.
pub proof fn gesture_part_has_no_plus(name: Seq<char>)
    ensures
        !gesture::gesture_part(name).contains('+'),
{
    name.index_of_last_ensures('+');
    if let Some(i) = name.index_of_last('+') {
        let g = gesture::gesture_part(name);
        assert forall|j: int| 0 <= j < g.len() implies g[j] != '+' by {
            assert(g[j] == name[i + 1 + j]);
        }
    }
}

/// Which texts name which type of swipe; no other text names one.
pub proof fn swipe_types_are_written_so(s: Seq<char>)
    ensures
        SwipeType::named(s) == Some(SwipeType::Any) <==> s == "Swipe"@,
        SwipeType::named(s) == Some(SwipeType::Up) <==> s == "SwipeUp"@,
        SwipeType::named(s) == Some(SwipeType::Down) <==> s == "SwipeDown"@,
        SwipeType::named(s) == Some(SwipeType::Left) <==> s == "SwipeLeft"@,
        SwipeType::named(s) == Some(SwipeType::Right) <==> s == "SwipeRight"@,
        SwipeType::named(s) == Some(SwipeType::Vertical) <==> s == "SwipeVertical"@,
        SwipeType::named(s) == Some(SwipeType::Horizontal) <==> s == "SwipeHorizontal"@,
{
    swipe_name_is_unique(s, SwipeType::Any);
    swipe_name_is_unique(s, SwipeType::Up);
    swipe_name_is_unique(s, SwipeType::Down);
    swipe_name_is_unique(s, SwipeType::Left);
    swipe_name_is_unique(s, SwipeType::Right);
    swipe_name_is_unique(s, SwipeType::Vertical);
    swipe_name_is_unique(s, SwipeType::Horizontal);
}

/// Which texts name which type of pinch; no other text names one.
pub proof fn pinch_types_are_written_so(s: Seq<char>)
    ensures
        PinchType::named(s) == Some(PinchType::Any) <==> s == "Pinch"@,
        PinchType::named(s) == Some(PinchType::In) <==> s == "PinchIn"@,
        PinchType::named(s) == Some(PinchType::Out) <==> s == "PinchOut"@,
{
    pinch_name_is_unique(s, PinchType::Any);
    pinch_name_is_unique(s, PinchType::In);
    pinch_name_is_unique(s, PinchType::Out);
}

proof fn first_dash_stands_between(front: Seq<char>, back: Seq<char>)
    requires
        !front.contains('-'),
    ensures
        gesture::before_dash(front + seq!['-'] + back) == front,
        gesture::after_dash(front + seq!['-'] + back) == Some(back),
{
    let s = front + seq!['-'] + back;
    s.index_of_first_ensures('-');
    assert(s[front.len() as int] == '-');
    assert(s.contains('-'));
    let at = s.index_of_first('-')->0;
    if at < front.len() {
        assert(s[at] == front[at]);
        assert(front.contains(front[at]));
    }
    assert(s.take(at) =~= front);
    assert(s.skip(at + 1) =~= back);
}

/// A swipe is written with a number of fingers, a dash and a type, and perhaps a second dash and
/// anything behind it. It is read as exactly these; it is refused first for its number, then for
/// its type.
pub proof fn swipe_is_read_between_dashes<E>(
    fingers: Seq<char>,
    swipe_type: Seq<char>,
    rest: Option<Seq<char>>,
)
    requires
        !fingers.contains('-'),
        !swipe_type.contains('-'),
    ensures
        ({
            let s = match rest {
                Some(rest) => fingers + seq!['-'] + (swipe_type + seq!['-'] + rest),
                None => fingers + seq!['-'] + swipe_type,
            };
            match (text::byte_value(fingers), SwipeType::named(swipe_type)) {
                (Some(count), Some(named)) => gesture::swipe_of::<E>(s) == Ok::<
                    (u8, SwipeType),
                    DecodeErrorView<E>,
                >((count, named)),
                (Some(_), None) => gesture::swipe_of::<E>(s) == Err::<
                    (u8, SwipeType),
                    DecodeErrorView<E>,
                >(DecodeErrorView::InvalidSwipeType(swipe_type)),
                (None, _) => gesture::swipe_of::<E>(s) == Err::<
                    (u8, SwipeType),
                    DecodeErrorView<E>,
                >(DecodeErrorView::InvalidFingers(text::byte_error_text(fingers))),
            }
        }),
{
    let behind = match rest {
        Some(rest) => swipe_type + seq!['-'] + rest,
        None => swipe_type,
    };
    first_dash_stands_between(fingers, behind);
    match rest {
        Some(rest) => {
            first_dash_stands_between(swipe_type, rest);
        },
        None => {
            swipe_type.index_of_first_ensures('-');
        },
    }
}

/// A text without a dash writes no swipe: it is refused for its number of fingers or, if that can
/// be read, for the missing type.
pub proof fn swipe_needs_a_dash<E>(s: Seq<char>)
    requires
        !s.contains('-'),
    ensures
        gesture::swipe_of::<E>(s) == Err::<(u8, SwipeType), DecodeErrorView<E>>(
            match text::byte_value(s) {
                Some(_) => DecodeErrorView::MissingSwipeType,
                None => DecodeErrorView::InvalidFingers(text::byte_error_text(s)),
            },
        ),
{
    s.index_of_first_ensures('-');
}

/// A name is cut at its last plus sign: what stands before it, whatever that is, is the modifiers.
/// A name without a plus sign has no modifiers and is a gesture as a whole.
pub proof fn name_is_cut_at_its_last_plus(modifiers: Option<Seq<char>>, written: Seq<char>)
    requires
        !written.contains('+'),
    ensures
        ({
            let name = match modifiers {
                Some(modifiers) => modifiers + seq!['+'] + written,
                None => written,
            };
            &&& gesture::modifiers_part(name) == modifiers
            &&& gesture::gesture_part(name) == written
        }),
{
    match modifiers {
        Some(m) => {
            let name = m + seq!['+'] + written;
            name.index_of_last_ensures('+');
            assert(name[m.len() as int] == '+');
            assert(name.contains('+'));
            let at = name.index_of_last('+')->0;
            if at > m.len() {
                assert(name[at] == written[at - m.len() - 1]);
                assert(written.contains(written[at - m.len() - 1]));
            }
            assert(name.take(at) =~= m);
            assert(name.skip(at + 1) =~= written);
        },
        None => {
            written.index_of_last_ensures('+');
        },
    }
}

/// A gesture as far as a swipe that was read or refused decides it.
pub open spec fn swipe_gesture<E>(swipe: Result<(u8, SwipeType), DecodeErrorView<E>>) -> Result<
    Gesture,
    DecodeErrorView<E>,
> {
    match swipe {
        Ok((fingers, swipe_type)) => Ok(Gesture::Swipe(fingers, swipe_type)),
        Err(e) => Err(e),
    }
}

/// Behind modifiers, a text that begins with a numeric character is read as a swipe, and one that
/// begins with another ASCII character than the ten digits, or is empty, as a pinch.
pub proof fn number_begins_a_swipe_behind_modifiers<E>(s: Seq<char>)
    ensures
        s.len() > 0 && '0' <= s[0] <= '9' ==> gesture::gesture_of::<E>(true, s) == swipe_gesture(
            gesture::swipe_of::<E>(s),
        ),
        s.len() > 0 && s[0] as int >= 128 && text::is_numeric_beyond_ascii(s[0])
            ==> gesture::gesture_of::<E>(true, s) == swipe_gesture(gesture::swipe_of::<E>(s)),
        s.len() > 0 && s[0] as int >= 128 && !text::is_numeric_beyond_ascii(s[0])
            ==> reads_as_pinch::<E>(true, s),
        s.len() > 0 && (s[0] < '0' || ('9' < s[0] && (s[0] as int) < 128)) ==> reads_as_pinch::<E>(
            true,
            s,
        ),
        s.len() == 0 ==> reads_as_pinch::<E>(true, s),
{
    pinch_types_are_written_so(s);
}

/// Without modifiers, a text behind an underscore is read as a swipe, and a text that does not
/// begin with an underscore as a pinch.
pub proof fn underscore_begins_a_swipe_without_modifiers<E>(s: Seq<char>)
    ensures
        gesture::gesture_of::<E>(false, seq!['_'] + s) == swipe_gesture(gesture::swipe_of::<E>(s)),
        s.len() == 0 || s[0] != '_' ==> reads_as_pinch::<E>(false, s),
{
    assert((seq!['_'] + s).skip(1) =~= s);
    pinch_types_are_written_so(s);
}

/// Whether a text is read as a pinch: as one of the three that are written so, and refused
/// otherwise.
pub open spec fn reads_as_pinch<E>(has_modifiers: bool, s: Seq<char>) -> bool {
    gesture::gesture_of::<E>(has_modifiers, s) == if s == "Pinch"@ {
        Ok::<Gesture, DecodeErrorView<E>>(Gesture::Pinch(PinchType::Any))
    } else if s == "PinchIn"@ {
        Ok(Gesture::Pinch(PinchType::In))
    } else if s == "PinchOut"@ {
        Ok(Gesture::Pinch(PinchType::Out))
    } else {
        Err(DecodeErrorView::InvalidPinchType(s))
    }
}

/// A bind has the modifiers that were parsed, the gesture that is written behind them and the
/// action that was decoded, each as it is. It is refused for the first of these that is refused,
/// or for a missing child.
pub proof fn bind_has_what_its_parts_are<M, A, E>(
    node: Node,
    replies: Replies<M, A, E>,
    modifiers: Option<Seq<char>>,
    written: Seq<char>,
)
    requires
        replies.fits(node),
        !written.contains('+'),
        node.node_name@ == match modifiers {
            Some(modifiers) => modifiers + seq!['+'] + written,
            None => written,
        },
    ensures
        match (replies.modifiers, gesture::gesture_of::<E>(modifiers is Some, written)) {
            (Some(Err(reason)), _) => replies.decoded(node) == Err::<
                Bind<M, A>,
                DecodeErrorView<E>,
            >(DecodeErrorView::InvalidModifiers(reason@)),
            (_, Err(e)) => replies.decoded(node) == Err::<Bind<M, A>, DecodeErrorView<E>>(e),
            (parsed, Ok(gesture)) => match replies.action {
                None => replies.decoded(node) == Err::<Bind<M, A>, DecodeErrorView<E>>(
                    DecodeErrorView::MissingAction,
                ),
                Some(reply) => match reply.outcome {
                    Err(e) => replies.decoded(node) == Err::<Bind<M, A>, DecodeErrorView<E>>(
                        DecodeErrorView::Action(e),
                    ),
                    Ok(action) => {
                        &&& replies.decoded(node) is Ok
                        &&& replies.decoded(node)->Ok_0.action == action
                        &&& replies.decoded(node)->Ok_0.gesture == gesture
                        &&& parsed matches Some(Ok(set)) ==> replies.decoded(node)->Ok_0.modifiers
                            == set
                        &&& parsed is None ==> replies.decoded(node)->Ok_0.modifiers
                            == replies.empty
                    },
                },
            },
        },
{
    name_is_cut_at_its_last_plus(modifiers, written);
}

/// A node with a child whose name writes modifiers and a gesture, whose modifiers were parsed to a
/// set and whose child was decoded to an action, decodes to the bind of just these.
pub proof fn whole_bind_written_then_decoded<M, A, E>(
    node: Node,
    replies: Replies<M, A, E>,
    modifiers: Option<(Seq<char>, M)>,
    gesture: Gesture,
    action: A,
)
    requires
        node.children > 0,
        node.node_name@ == written_name(
            match modifiers {
                Some((text, _)) => Some(text),
                None => None,
            },
            gesture,
        ),
        match modifiers {
            Some((_, parsed)) => replies.modifiers == Some(Ok::<M, String>(parsed)),
            None => replies.modifiers is None,
        },
        replies.action is Some,
        replies.action->0.outcome == Ok::<A, E>(action),
    ensures
        replies.decoded(node) == Ok::<Bind<M, A>, DecodeErrorView<E>>(
            Bind {
                modifiers: match modifiers {
                    Some((_, parsed)) => parsed,
                    None => replies.empty,
                },
                gesture,
                action,
            },
        ),
{
    let text = match modifiers {
        Some((text, _)) => Some(text),
        None => None,
    };
    name_written_then_cut(text, gesture);
    gesture_written_then_read::<E>(modifiers is Some, gesture);
    written_has_no_plus(modifiers is Some, gesture);
    bind_has_what_its_parts_are(node, replies, text, written(modifiers is Some, gesture));
}

/// Replies fit a node if and only if there are modifiers just where the name has a plus sign, and
/// an action just where the node has a child.
pub proof fn replies_fit_where_something_is_asked<M, A, E>(node: Node, replies: Replies<M, A, E>)
    ensures
        gesture::modifiers_part(node.node_name@) is Some <==> node.node_name@.contains('+'),
        replies.fits(node) <==> {
            &&& replies.modifiers is Some <==> node.node_name@.contains('+')
            &&& replies.action is Some <==> node.children > 0
        },
{
    node.node_name@.index_of_last_ensures('+');
}

/// The head of a bind has the modifiers that were parsed and the gesture that is written behind
/// them. It is refused for the first of these that is refused, or for a missing child.
pub proof fn head_has_what_its_parts_are<M, E>(
    node: Node,
    parsed: Option<Result<M, Seq<char>>>,
    empty: M,
    modifiers: Option<Seq<char>>,
    written: Seq<char>,
)
    requires
        parsed is Some <==> modifiers is Some,
        !written.contains('+'),
        node.node_name@ == match modifiers {
            Some(modifiers) => modifiers + seq!['+'] + written,
            None => written,
        },
    ensures
        match (parsed, gesture::gesture_of::<E>(modifiers is Some, written)) {
            (Some(Err(reason)), _) => binds::head_of::<M, E>(node, parsed, empty) == Err::<
                BindHead<M>,
                DecodeErrorView<E>,
            >(DecodeErrorView::InvalidModifiers(reason)),
            (_, Err(e)) => binds::head_of::<M, E>(node, parsed, empty) == Err::<
                BindHead<M>,
                DecodeErrorView<E>,
            >(e),
            (_, Ok(gesture)) => if node.children == 0 {
                binds::head_of::<M, E>(node, parsed, empty) == Err::<
                    BindHead<M>,
                    DecodeErrorView<E>,
                >(DecodeErrorView::MissingAction)
            } else {
                &&& binds::head_of::<M, E>(node, parsed, empty) is Ok
                &&& binds::head_of::<M, E>(node, parsed, empty)->Ok_0.gesture == gesture
                &&& parsed matches Some(Ok(set)) ==> binds::head_of::<M, E>(
                    node,
                    parsed,
                    empty,
                )->Ok_0.modifiers == set
                &&& parsed is None ==> binds::head_of::<M, E>(node, parsed, empty)->Ok_0.modifiers
                    == empty
            },
        },
{
    name_is_cut_at_its_last_plus(modifiers, written);
}

/// An action is put to the modifiers and the gesture of a head, which stay as they are; an error
/// of the action is the bind's.
pub proof fn action_leaves_the_head_alone<M, A, E>(head: BindHead<M>, action: A, error: E)
    ensures
        binds::bind_of(head, Ok::<A, E>(action)) is Ok,
        binds::bind_of(head, Ok::<A, E>(action))->Ok_0.modifiers == head.modifiers,
        binds::bind_of(head, Ok::<A, E>(action))->Ok_0.gesture == head.gesture,
        binds::bind_of(head, Ok::<A, E>(action))->Ok_0.action == action,
        binds::bind_of(head, Err::<A, E>(error)) == Err::<Bind<M, A>, DecodeErrorView<E>>(
            DecodeErrorView::Action(error),
        ),
{
}

/// Of a bind's node a type name and each argument are reported, and nothing else but what the
/// action reports; that is reported just where the action's turn comes.
pub proof fn bind_reports_what_it_should_not_have<M, A, E>(
    node: Node,
    replies: Replies<M, A, E>,
)
    requires
        replies.fits(node),
    ensures
        ({
            let named: nat = if node.type_annotation is Some {
                1
            } else {
                0
            };
            let own = named + node.arguments as nat;
            let reported = replies.reported(node);
            let turn = replies.decoded(node) is Ok || replies.decoded(node)->Err_0 is Action;
            &&& reported.len() == own + if turn {
                replies.action->0.emitted@.len()
            } else {
                0
            }
            &&& node.type_annotation is Some ==> reported[0] is UnexpectedTypeName
            &&& forall|i: int|
                0 <= i < node.arguments ==> #[trigger] reported[named + i]
                    == DecodeErrorView::<E>::UnexpectedArgument(i as usize)
            &&& forall|i: int|
                turn && 0 <= i < replies.action->0.emitted@.len() ==> #[trigger] reported[own + i]
                    == DecodeErrorView::Action(replies.action->0.emitted@[i])
        }),
{
    let has_modifiers = gesture::modifiers_part(node.node_name@) is Some;
    let written = gesture::gesture_part(node.node_name@);
    gesture_is_refused_by_itself::<E>(has_modifiers, written);
}

/// Reading a gesture reports none of the faults that lie outside of it.
proof fn gesture_is_refused_by_itself<E>(has_modifiers: bool, s: Seq<char>)
    ensures
        gesture::gesture_of::<E>(has_modifiers, s) matches Err(e) ==> e !is Action,
{
}

/// A child that decodes to a bind adds that bind and reports what was reported on the way; another
/// child adds nothing and reports also why it was refused.
pub proof fn one_child_adds_one_bind<M, A, E>(child: BindNode<M, A, E>)
    ensures
        match child.replies.decoded(child.node) {
            Ok(bind) => {
                &&& binds::binds_of(seq![child]) == seq![bind]
                &&& binds::errors_of(seq![child]) == child.replies.reported(child.node)
            },
            Err(e) => {
                &&& binds::binds_of(seq![child]) == Seq::<Bind<M, A>>::empty()
                &&& binds::errors_of(seq![child]) == child.replies.reported(child.node) + seq![e]
            },
        },
{
    reveal_with_fuel(Seq::filter, 2);
    reveal_with_fuel(binds::errors_of, 2);
    let one = seq![child];
    assert(one.drop_last() =~= Seq::empty());
    assert(one.last() == child);
    let ok = |child: BindNode<M, A, E>| child.decoded() is Ok;
    assert(one.drop_last().filter(ok) =~= Seq::empty());
    match child.replies.decoded(child.node) {
        Ok(bind) => {
            assert(one.filter(ok) =~= seq![child]);
            assert(binds::binds_of(one) =~= seq![bind]);
            assert(binds::errors_of(one) =~= child.replies.reported(child.node));
        },
        Err(e) => {
            assert(one.filter(ok) =~= Seq::empty());
            assert(binds::binds_of(one) =~= Seq::empty());
            assert(binds::errors_of(one) =~= child.replies.reported(child.node) + seq![e]);
        },
    }
}

/// A node that should have children alone has an error reported for its type name, for each
/// argument and for each property.
pub proof fn each_unexpected_element_is_reported<E>(node: Node, count: nat)
    ensures
        kdl::type_name_errors::<E>(node).len() == if node.type_annotation is Some {
            1nat
        } else {
            0nat
        },
        forall|i: int|
            0 <= i < kdl::type_name_errors::<E>(node).len() ==> (#[trigger] kdl::type_name_errors::<
                E,
            >(node)[i]) is UnexpectedTypeName,
        kdl::argument_errors::<E>(count as int).len() == count,
        forall|i: int|
            0 <= i < count ==> #[trigger] kdl::argument_errors::<E>(count as int)[i]
                == DecodeErrorView::<E>::UnexpectedArgument(i as usize),
        kdl::property_errors::<E>(count as int).len() == count,
        forall|i: int|
            0 <= i < count ==> #[trigger] kdl::property_errors::<E>(count as int)[i]
                == DecodeErrorView::<E>::UnexpectedProperty(i as usize),
{
}

/// The words of each error, whatever it was raised for.
pub proof fn errors_are_worded_so<E>(text: Seq<char>, i: usize, e: E)
    ensures
        DecodeErrorView::<E>::UnexpectedTypeName.message() == Some(
            "no type name expected for this node"@,
        ),
        DecodeErrorView::<E>::UnexpectedArgument(i).message() == Some(
            "no arguments expected for this node"@,
        ),
        DecodeErrorView::<E>::UnexpectedProperty(i).message() == Some(
            "no properties expected for this node"@,
        ),
        DecodeErrorView::<E>::InvalidModifiers(text).message() == Some("invalid modifiers"@),
        DecodeErrorView::<E>::InvalidModifiers(text).cause() == Some(text),
        DecodeErrorView::<E>::InvalidFingers(text).message() == Some(text),
        DecodeErrorView::<E>::InvalidFingers(text).cause() is None,
        DecodeErrorView::<E>::MissingSwipeType.message() == Some("missing swipe gesture type"@),
        DecodeErrorView::<E>::InvalidSwipeType(text).message() == Some(
            "invalid swipe gesture type"@,
        ),
        DecodeErrorView::<E>::InvalidSwipeType(text).cause() == Some(
            "unknown swipe gesture type: "@ + text,
        ),
        DecodeErrorView::<E>::InvalidPinchType(text).message() == Some(
            "unknown pinch gesture type: "@ + text,
        ),
        DecodeErrorView::<E>::InvalidPinchType(text).cause() is None,
        DecodeErrorView::<E>::MissingAction.message() == Some(
            "expected an action for this gesture bind"@,
        ),
        DecodeErrorView::Action(e).message() is None,
        DecodeErrorView::Action(e).cause() is None,
        DecodeErrorView::<E>::UnexpectedTypeName.unexpected() == Some("type name"@),
        DecodeErrorView::<E>::UnexpectedArgument(i).unexpected() == Some("argument"@),
        DecodeErrorView::<E>::UnexpectedProperty(i).unexpected() == Some("property"@),
        DecodeErrorView::<E>::InvalidModifiers(text).unexpected() is None,
        DecodeErrorView::<E>::InvalidFingers(text).unexpected() is None,
        DecodeErrorView::<E>::InvalidSwipeType(text).unexpected() is None,
        DecodeErrorView::<E>::InvalidPinchType(text).unexpected() is None,
        DecodeErrorView::<E>::MissingSwipeType.unexpected() is None,
        DecodeErrorView::<E>::MissingAction.unexpected() is None,
        DecodeErrorView::Action(e).unexpected() is None,
{
}

/// An error is seen as what it is, with the very text that it holds, and a context as the errors
/// that it holds.
pub proof fn errors_are_seen_as_they_are<E>(error: DecodeError<E>, ctx: Context<E>)
    ensures
        error is UnexpectedTypeName <==> error@ is UnexpectedTypeName,
        error is MissingSwipeType <==> error@ is MissingSwipeType,
        error is MissingAction <==> error@ is MissingAction,
        error matches DecodeError::UnexpectedArgument(i) ==> error@
            == DecodeErrorView::<E>::UnexpectedArgument(i),
        error matches DecodeError::UnexpectedProperty(i) ==> error@
            == DecodeErrorView::<E>::UnexpectedProperty(i),
        error matches DecodeError::InvalidModifiers(text) ==> error@
            == DecodeErrorView::<E>::InvalidModifiers(text@),
        error matches DecodeError::InvalidFingers(text) ==> error@
            == DecodeErrorView::<E>::InvalidFingers(text@),
        error matches DecodeError::InvalidSwipeType(text) ==> error@
            == DecodeErrorView::<E>::InvalidSwipeType(text@),
        error matches DecodeError::InvalidPinchType(text) ==> error@
            == DecodeErrorView::<E>::InvalidPinchType(text@),
        error matches DecodeError::Action(e) ==> error@ == DecodeErrorView::Action(e),
        ctx@.len() == ctx.errors@.len(),
        forall|i: int| 0 <= i < ctx@.len() ==> #[trigger] ctx@[i] == ctx.errors@[i]@,
{
}

/// A decoded value is seen as it is, an error as its view, and so are parsed modifiers and texts.
pub proof fn results_are_seen_as_they_are<T, E, M>(
    value: T,
    error: DecodeError<E>,
    modifiers: M,
    text: String,
)
    ensures
        binds::result_view(Ok::<T, DecodeError<E>>(value)) == Ok::<T, DecodeErrorView<E>>(value),
        binds::result_view(Err::<T, DecodeError<E>>(error)) == Err::<T, DecodeErrorView<E>>(
            error@,
        ),
        binds::modifiers_view(Some(Ok::<M, String>(modifiers))) == Some(
            Ok::<M, Seq<char>>(modifiers),
        ),
        binds::modifiers_view(Some(Err::<M, String>(text))) == Some(Err::<M, Seq<char>>(text@)),
        binds::modifiers_view(None::<Result<M, String>>) is None,
        kdl::option_view(Some(text)) == Some(text@),
        kdl::option_view(None) is None,
{
}

} // verus!
