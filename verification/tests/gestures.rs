use niri_core::binds::{ActionReply, Bind, BindHead, BindNode, Binds, Replies};
use niri_core::float::{Float, FloatOrInt};
use niri_core::gesture::{parse_gesture, parse_swipe, split_name, Gesture, PinchType, SwipeType};
use niri_core::gestures::{
    DndEdgeViewScroll, DndEdgeViewScrollPart, DndEdgeWorkspaceSwitch, DndEdgeWorkspaceSwitchPart,
    Gestures, GesturesPart, HotCorners,
};
use niri_core::kdl::{expect_only_children, Context, DecodeError, Node};
use niri_core::merge::MergeWith;

fn float(value: f64) -> Float {
    Float { bits: value.to_bits() }
}

fn node(name: &str, children: usize) -> Node {
    Node {
        type_annotation: None,
        node_name: name.to_owned(),
        arguments: 0,
        properties: 0,
        children,
    }
}

fn action_reply(action: &str) -> Option<ActionReply<String, String>> {
    Some(ActionReply { emitted: Vec::new(), outcome: Ok(action.to_owned()) })
}

fn replies(modifiers: Option<Result<u8, String>>, action: &str) -> Replies<u8, String, String> {
    Replies { modifiers, empty: 0, action: action_reply(action) }
}

fn gesture(has_modifiers: bool, text: &str) -> Result<Gesture, DecodeError<String>> {
    parse_gesture(has_modifiers, text)
}

fn message(error: &DecodeError<String>) -> String {
    error.message().unwrap()
}

#[test]
fn swipe_types_are_named() {
    let names = [
        ("Swipe", SwipeType::Any),
        ("SwipeUp", SwipeType::Up),
        ("SwipeDown", SwipeType::Down),
        ("SwipeLeft", SwipeType::Left),
        ("SwipeRight", SwipeType::Right),
        ("SwipeVertical", SwipeType::Vertical),
        ("SwipeHorizontal", SwipeType::Horizontal),
    ];
    for (name, swipe_type) in names {
        assert_eq!(SwipeType::from_str(name).unwrap(), swipe_type);
        assert_eq!(name.parse::<SwipeType>().unwrap(), swipe_type);
    }
    let e = SwipeType::from_str("swipeup").unwrap_err();
    assert_eq!(e.message(), "unknown swipe gesture type: swipeup");
    assert!("".parse::<SwipeType>().is_err());
}

#[test]
fn pinch_types_are_named() {
    let names =
        [("Pinch", PinchType::Any), ("PinchIn", PinchType::In), ("PinchOut", PinchType::Out)];
    for (name, pinch_type) in names {
        assert_eq!(PinchType::from_str(name).unwrap(), pinch_type);
        assert_eq!(name.parse::<PinchType>().unwrap(), pinch_type);
    }
    let e = PinchType::from_str("Squeeze").unwrap_err();
    assert_eq!(e.message(), "unknown pinch gesture type: Squeeze");
}

#[test]
fn swipes_are_parsed() {
    let swipe = |s: &str| parse_swipe::<String>(s);
    assert_eq!(swipe("3-SwipeUp").ok(), Some((3, SwipeType::Up)));
    assert_eq!(swipe("255-Swipe").ok(), Some((255, SwipeType::Any)));
    assert_eq!(swipe("004-SwipeLeft").ok(), Some((4, SwipeType::Left)));
    assert_eq!(swipe("+4-SwipeLeft").ok(), Some((4, SwipeType::Left)));
    // What follows a second dash is left out of account.
    assert_eq!(swipe("3-SwipeUp-Fast").ok(), Some((3, SwipeType::Up)));

    let fingers = |s: &str| match swipe(s) {
        Err(DecodeError::InvalidFingers(reason)) => reason,
        _ => panic!("{} has a number of fingers", s),
    };
    assert_eq!(fingers("256-SwipeUp"), "number too large to fit in target type");
    assert_eq!(fingers("-SwipeUp"), "cannot parse integer from empty string");
    assert_eq!(fingers("three-SwipeUp"), "invalid digit found in string");
    assert_eq!(fingers(" 3-SwipeUp"), "invalid digit found in string");

    assert!(matches!(swipe("3"), Err(DecodeError::MissingSwipeType)));
    assert!(matches!(swipe("3-Up"), Err(DecodeError::InvalidSwipeType(unknown)) if unknown == "Up"));
    assert!(matches!(swipe("3-"), Err(DecodeError::InvalidSwipeType(unknown)) if unknown == ""));
}

#[test]
fn names_are_cut_at_the_last_plus() {
    assert_eq!(split_name("Mod+Shift+3-SwipeUp"), (Some("Mod+Shift"), "3-SwipeUp"));
    assert_eq!(split_name("_3-SwipeUp"), (None, "_3-SwipeUp"));
    assert_eq!(split_name("Mod+"), (Some("Mod"), ""));
    assert_eq!(split_name("+PinchIn"), (Some(""), "PinchIn"));
    assert_eq!(split_name("Größe+Pinch"), (Some("Größe"), "Pinch"));
}

#[test]
fn gestures_are_parsed() {
    assert_eq!(gesture(true, "3-SwipeUp").ok(), Some(Gesture::Swipe(3, SwipeType::Up)));
    assert_eq!(gesture(false, "_3-SwipeUp").ok(), Some(Gesture::Swipe(3, SwipeType::Up)));
    assert_eq!(gesture(true, "PinchIn").ok(), Some(Gesture::Pinch(PinchType::In)));
    assert_eq!(gesture(false, "PinchIn").ok(), Some(Gesture::Pinch(PinchType::In)));

    // Without modifiers a swipe needs its underscore, behind modifiers it has none.
    let e = gesture(false, "3-SwipeUp").unwrap_err();
    assert_eq!(message(&e), "unknown pinch gesture type: 3-SwipeUp");
    let e = gesture(true, "_3-SwipeUp").unwrap_err();
    assert_eq!(message(&e), "unknown pinch gesture type: _3-SwipeUp");
    let e = gesture(true, "").unwrap_err();
    assert_eq!(message(&e), "unknown pinch gesture type: ");

    // A numeric character that is no digit begins a swipe too, but is no number of fingers.
    assert!(matches!(gesture(true, "²-SwipeUp"), Err(DecodeError::InvalidFingers(_))));
    assert!(matches!(gesture(true, "é-SwipeUp"), Err(DecodeError::InvalidPinchType(_))));
}

#[test]
fn every_written_gesture_is_read_back() {
    let swipe_types = [
        ("Swipe", SwipeType::Any),
        ("SwipeUp", SwipeType::Up),
        ("SwipeHorizontal", SwipeType::Horizontal),
    ];
    for fingers in 0..=255u8 {
        for (name, swipe_type) in swipe_types {
            let expected = Gesture::Swipe(fingers, swipe_type);
            let behind = format!("Super+{}-{}", fingers, name);
            let (modifiers, text) = split_name(&behind);
            assert_eq!(modifiers, Some("Super"));
            assert_eq!(gesture(true, text).ok(), Some(expected));
            let alone = format!("_{}-{}", fingers, name);
            let (modifiers, text) = split_name(&alone);
            assert_eq!(modifiers, None);
            assert_eq!(gesture(false, text).ok(), Some(expected));
        }
    }
}

#[test]
fn errors_have_messages_and_causes() {
    let e: DecodeError<String> = DecodeError::InvalidSwipeType("Up".to_owned());
    assert_eq!(e.message().unwrap(), "invalid swipe gesture type");
    assert_eq!(e.cause().unwrap(), "unknown swipe gesture type: Up");
    assert!(e.unexpected().is_none());
    let e: DecodeError<String> = DecodeError::InvalidModifiers("what is Mud".to_owned());
    assert_eq!(e.message().unwrap(), "invalid modifiers");
    assert_eq!(e.cause().unwrap(), "what is Mud");
    let e: DecodeError<String> = DecodeError::InvalidFingers("too many".to_owned());
    assert_eq!(e.message().unwrap(), "too many");
    assert!(e.cause().is_none());
    let e: DecodeError<String> = DecodeError::MissingSwipeType;
    assert_eq!(e.message().unwrap(), "missing swipe gesture type");
    let e: DecodeError<String> = DecodeError::MissingAction;
    assert_eq!(e.message().unwrap(), "expected an action for this gesture bind");
    let e: DecodeError<String> = DecodeError::UnexpectedTypeName;
    assert_eq!(e.unexpected().unwrap(), "type name");
    assert_eq!(e.message().unwrap(), "no type name expected for this node");
    let e: DecodeError<String> = DecodeError::UnexpectedArgument(1);
    assert_eq!(e.unexpected().unwrap(), "argument");
    assert_eq!(e.message().unwrap(), "no arguments expected for this node");
    let e: DecodeError<String> = DecodeError::UnexpectedProperty(1);
    assert_eq!(e.unexpected().unwrap(), "property");
    assert_eq!(e.message().unwrap(), "no properties expected for this node");
    let e: DecodeError<String> = DecodeError::Action("no such action".to_owned());
    assert!(e.message().is_none());
}

#[test]
fn only_children_are_expected() {
    let mut ctx: Context<String> = Context::new();
    let node = Node {
        type_annotation: Some("u8".to_owned()),
        node_name: "binds".to_owned(),
        arguments: 2,
        properties: 1,
        children: 0,
    };
    expect_only_children(&node, &mut ctx);
    assert_eq!(ctx.errors.len(), 4);
    assert!(matches!(ctx.errors[0], DecodeError::UnexpectedTypeName));
    assert!(matches!(ctx.errors[1], DecodeError::UnexpectedArgument(0)));
    assert!(matches!(ctx.errors[2], DecodeError::UnexpectedArgument(1)));
    assert!(matches!(ctx.errors[3], DecodeError::UnexpectedProperty(0)));
}

#[test]
fn binds_are_decoded_one_by_one() {
    let mut ctx: Context<String> = Context::new();
    let bind =
        Bind::decode_node(&node("Mod+4-SwipeDown", 1), replies(Some(Ok(8)), "quit"), &mut ctx);
    let expected = Bind {
        modifiers: 8,
        gesture: Gesture::Swipe(4, SwipeType::Down),
        action: "quit".to_owned(),
    };
    assert_eq!(bind.ok(), Some(expected));
    let bind = Bind::decode_node(&node("PinchOut", 2), replies(None, "zoom"), &mut ctx);
    let expected = Bind {
        modifiers: 0,
        gesture: Gesture::Pinch(PinchType::Out),
        action: "zoom".to_owned(),
    };
    assert_eq!(bind.ok(), Some(expected));
    assert!(ctx.errors.is_empty());
}

#[test]
fn a_bind_is_refused_for_its_first_fault() {
    let mut ctx: Context<String> = Context::new();
    // Modifiers come before the gesture, the gesture before the child.
    let bad = Replies {
        modifiers: Some(Err("what is Mud".to_owned())),
        empty: 0u8,
        action: None::<ActionReply<String, String>>,
    };
    let e = Bind::decode_node(&node("Mud+Squeeze", 0), bad, &mut ctx).unwrap_err();
    assert!(matches!(e, DecodeError::InvalidModifiers(reason) if reason == "what is Mud"));
    let bad = Replies {
        modifiers: Some(Ok(8u8)),
        empty: 0,
        action: None::<ActionReply<String, String>>,
    };
    let e = Bind::decode_node(&node("Mod+Squeeze", 0), bad, &mut ctx).unwrap_err();
    assert!(matches!(e, DecodeError::InvalidPinchType(unknown) if unknown == "Squeeze"));
    let bad = Replies {
        modifiers: Some(Ok(8u8)),
        empty: 0,
        action: None::<ActionReply<String, String>>,
    };
    let e = Bind::decode_node(&node("Mod+Pinch", 0), bad, &mut ctx).unwrap_err();
    assert!(matches!(e, DecodeError::MissingAction));
    let bad: Replies<u8, String, String> = Replies {
        modifiers: None,
        empty: 0,
        action: Some(ActionReply {
            emitted: vec!["odd argument".to_owned()],
            outcome: Err("no such action".to_owned()),
        }),
    };
    let e = Bind::decode_node(&node("Pinch", 1), bad, &mut ctx).unwrap_err();
    assert!(matches!(e, DecodeError::Action(reason) if reason == "no such action"));
    assert_eq!(ctx.errors.len(), 1);
    assert!(matches!(&ctx.errors[0], DecodeError::Action(reason) if reason == "odd argument"));
}

#[test]
fn a_bind_is_decoded_in_two_steps() {
    let mut ctx: Context<String> = Context::new();
    let mut odd = node("_2-SwipeVertical", 1);
    odd.arguments = 1;
    odd.properties = 3;
    let head = BindHead::decode_node(&odd, None, 0u8, &mut ctx).ok().unwrap();
    assert_eq!(head.gesture, Gesture::Swipe(2, SwipeType::Vertical));
    // Properties are not reported of a bind.
    assert_eq!(ctx.errors.len(), 1);
    assert!(matches!(ctx.errors[0], DecodeError::UnexpectedArgument(0)));
    let bind = head.with_action::<&str, String>(Ok("overview")).ok().unwrap();
    assert_eq!(bind.action, "overview");
}

#[test]
fn binds_keep_what_can_be_decoded() {
    let mut ctx: Context<String> = Context::new();
    let children = vec![
        BindNode { node: node("_3-SwipeUp", 1), replies: replies(None, "up") },
        BindNode { node: node("_3-SwipeUpwards", 1), replies: replies(None, "lost") },
        BindNode { node: node("Mod+PinchIn", 1), replies: replies(Some(Ok(1)), "in") },
        BindNode {
            node: node("Pinch", 1),
            replies: Replies {
                modifiers: None,
                empty: 0,
                action: Some(ActionReply {
                    emitted: vec!["first".to_owned()],
                    outcome: Err("second".to_owned()),
                }),
            },
        },
    ];
    let mut parent = node("binds", 4);
    parent.properties = 1;
    let binds = Binds::decode_node(&parent, children, &mut ctx).ok().unwrap();
    let actions: Vec<&str> = binds.0.iter().map(|b| b.action.as_str()).collect();
    assert_eq!(actions, ["up", "in"]);
    assert_eq!(ctx.errors.len(), 4);
    assert!(matches!(ctx.errors[0], DecodeError::UnexpectedProperty(0)));
    assert!(matches!(ctx.errors[1], DecodeError::InvalidSwipeType(_)));
    assert!(matches!(&ctx.errors[2], DecodeError::Action(e) if e == "first"));
    assert!(matches!(&ctx.errors[3], DecodeError::Action(e) if e == "second"));
}

#[test]
fn children_are_taken_in() {
    let mut ctx: Context<String> = Context::new();
    let mut binds: Binds<u8, u8> = Binds::default();
    let bind = Bind { modifiers: 1, gesture: Gesture::Pinch(PinchType::Any), action: 2 };
    binds.take_child(Ok(bind.clone()), &mut ctx);
    binds.take_child(Err(DecodeError::MissingAction), &mut ctx);
    assert_eq!(binds.0, vec![bind]);
    assert_eq!(ctx.errors.len(), 1);
}

#[test]
fn defaults() {
    let view = DndEdgeViewScroll::default();
    assert_eq!(f64::from_bits(view.trigger_width.bits), 30.);
    assert_eq!(view.delay_ms, 100);
    assert_eq!(f64::from_bits(view.max_speed.bits), 1500.);
    let switch = DndEdgeWorkspaceSwitch::default();
    assert_eq!(f64::from_bits(switch.trigger_height.bits), 50.);
    assert_eq!(switch.delay_ms, 100);
    assert_eq!(f64::from_bits(switch.max_speed.bits), 1500.);
    let corners = HotCorners::default();
    assert!(!corners.off && !corners.top_left && !corners.top_right);
    assert!(!corners.bottom_left && !corners.bottom_right);
    let gestures: Gestures<u8, u8> = Gestures::default();
    assert_eq!(gestures.dnd_edge_view_scroll, view);
    assert_eq!(gestures.dnd_edge_workspace_switch, switch);
    assert_eq!(gestures.hot_corners, corners);
    assert!(gestures.binds.0.is_empty());
}

#[test]
fn floats_compare_as_numbers() {
    let values = [0., -0., 1., -1., 30., f64::INFINITY, f64::NEG_INFINITY, f64::NAN, f64::MIN];
    for a in values {
        for b in values {
            assert_eq!(float(a) == float(b), a == b);
        }
    }
}

#[test]
fn silent_part_is_the_identity() {
    let mut gestures: Gestures<u8, u8> = Gestures::default();
    gestures.hot_corners.off = true;
    gestures.dnd_edge_view_scroll.delay_ms = 7;
    let before = gestures.clone();
    gestures.merge_with(&GesturesPart::default());
    assert_eq!(gestures, before);
}

#[test]
fn later_parts_win() {
    let mut view = DndEdgeViewScroll::default();
    view.merge_with(&DndEdgeViewScrollPart {
        trigger_width: Some(FloatOrInt(float(12.5))),
        delay_ms: Some(5),
        max_speed: None,
    });
    view.merge_with(&DndEdgeViewScrollPart {
        trigger_width: None,
        delay_ms: Some(6),
        max_speed: Some(FloatOrInt(float(9.))),
    });
    assert_eq!(f64::from_bits(view.trigger_width.bits), 12.5);
    assert_eq!(view.delay_ms, 6);
    assert_eq!(f64::from_bits(view.max_speed.bits), 9.);

    let mut switch = DndEdgeWorkspaceSwitch::default();
    switch.merge_with(&DndEdgeWorkspaceSwitchPart {
        trigger_height: Some(FloatOrInt(float(1.))),
        delay_ms: None,
        max_speed: Some(FloatOrInt(float(2.))),
    });
    switch.merge_with(&DndEdgeWorkspaceSwitchPart {
        trigger_height: Some(FloatOrInt(float(3.))),
        delay_ms: Some(4),
        max_speed: None,
    });
    assert_eq!(f64::from_bits(switch.trigger_height.bits), 3.);
    assert_eq!(switch.delay_ms, 4);
    assert_eq!(f64::from_bits(switch.max_speed.bits), 2.);
}

#[test]
fn binds_of_parts_add_up() {
    let bind = |action: u8| Bind { modifiers: 0u8, gesture: Gesture::Pinch(PinchType::Any), action };
    let part = |actions: &[u8], off: Option<bool>| GesturesPart {
        binds: Some(Binds(actions.iter().map(|a| bind(*a)).collect())),
        hot_corners: off.map(|off| HotCorners { off, top_left: true, ..HotCorners::default() }),
        ..GesturesPart::default()
    };
    let mut gestures: Gestures<u8, u8> = Gestures::default();
    gestures.binds.0.push(bind(1));
    gestures.merge_with(&part(&[2, 3], Some(true)));
    gestures.merge_with(&part(&[3], None));
    let actions: Vec<u8> = gestures.binds.0.iter().map(|b| b.action).collect();
    assert_eq!(actions, [1, 2, 3, 3]);
    assert!(gestures.hot_corners.off && gestures.hot_corners.top_left);
    gestures.merge_with(&part(&[], Some(false)));
    assert!(!gestures.hot_corners.off);
    let copy = part(&[4], None).clone();
    assert_eq!(copy, part(&[4], None));
}

fn binds(actions: &[u8]) -> Binds<u8, u8> {
    let gesture = Gesture::Pinch(PinchType::Any);
    Binds(actions.iter().map(|a| Bind { modifiers: 0, gesture, action: *a }).collect())
}

fn merged(mut base: Binds<u8, u8>, part: &Binds<u8, u8>) -> Binds<u8, u8> {
    base.merge_with(part);
    base
}

#[test]
fn merging_binds_is_associative() {
    let from_left = merged(merged(binds(&[1]), &binds(&[2, 3])), &binds(&[4]));
    let from_right = merged(binds(&[1]), &merged(binds(&[2, 3]), &binds(&[4])));
    assert_eq!(from_left, from_right);
    assert_eq!(from_left, binds(&[1, 2, 3, 4]));
}

#[test]
fn merging_with_no_binds_is_neutral() {
    assert_eq!(merged(binds(&[1, 2]), &binds(&[])), binds(&[1, 2]));
    assert_eq!(merged(Binds::default(), &binds(&[1, 2])), binds(&[1, 2]));
}

#[test]
fn children_put_together_decode_to_binds_put_together() {
    let children = |names: &[&str]| -> Vec<BindNode<u8, String, String>> {
        let child =
            |name: &&str| BindNode { node: node(name, 1), replies: replies(None, name) };
        names.iter().map(child).collect()
    };
    let decode = |names: &[&str]| -> (Binds<u8, String>, usize) {
        let mut ctx: Context<String> = Context::new();
        let parent = node("binds", names.len());
        let binds = Binds::decode_node(&parent, children(names), &mut ctx).ok().unwrap();
        (binds, ctx.errors.len())
    };
    let (mut first, first_errors) = decode(&["Pinch", "Squeeze"]);
    let (second, second_errors) = decode(&["_2-Swipe", "_x-Swipe", "PinchIn"]);
    let (together, errors) = decode(&["Pinch", "Squeeze", "_2-Swipe", "_x-Swipe", "PinchIn"]);
    first.merge_with(&second);
    assert_eq!(first, together);
    assert_eq!(first_errors + second_errors, errors);
    assert_eq!(decode(&[]), (Binds::default(), 0));
}

#[test]
fn a_part_merged_twice_adds_its_binds_twice() {
    let part = GesturesPart {
        dnd_edge_view_scroll: Some(DndEdgeViewScrollPart {
            trigger_width: Some(FloatOrInt(float(3.))),
            delay_ms: None,
            max_speed: None,
        }),
        hot_corners: Some(HotCorners { off: true, ..HotCorners::default() }),
        binds: Some(binds(&[1, 2])),
        ..GesturesPart::default()
    };
    let mut gestures: Gestures<u8, u8> = Gestures::default();
    gestures.merge_with(&part);
    let once = gestures.clone();
    gestures.merge_with(&part);
    assert_eq!(gestures.dnd_edge_view_scroll, once.dnd_edge_view_scroll);
    assert_eq!(gestures.dnd_edge_workspace_switch, once.dnd_edge_workspace_switch);
    assert_eq!(gestures.hot_corners, once.hot_corners);
    assert_eq!(once.binds, binds(&[1, 2]));
    assert_eq!(gestures.binds, binds(&[1, 2, 1, 2]));
}
