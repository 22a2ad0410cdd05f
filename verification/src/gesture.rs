//! Touchpad gestures and how a bind's name writes them.
//!
//! The name of a bind is a gesture, with modifiers before it or without: `Mod+3-SwipeUp`,
//! `_3-SwipeUp`, `Mod+PinchIn`, `PinchIn`. A swipe begins with its number of fingers; where no
//! modifiers precede it, an underscore does, as a node's name cannot begin with a digit.
use std::str::FromStr;
use vstd::prelude::*;
use vstd::string::*;

use crate::kdl::{DecodeError, DecodeErrorView};
use crate::text;

verus! {

#[derive(Debug, Clone, Copy, PartialEq, Eq, Structural)]
pub enum SwipeType {
    Any,
    Up,
    Down,
    Left,
    Right,
    Vertical,
    Horizontal,
}

#[derive(Debug, Clone, Copy, PartialEq, Eq, Structural)]
pub enum PinchType {
    Any,
    In,
    Out,
}

#[derive(Debug, Clone, Copy, PartialEq, Eq, Structural)]
pub enum Gesture {
    Swipe(u8, SwipeType),
    Pinch(PinchType),
}

/// A text that names no type of swipe.
#[derive(Debug)]
pub struct UnknownSwipeType {
    pub unknown: String,
}

impl UnknownSwipeType {
    /// The words in which the text is refused.
    pub fn message(&self) -> (res: String)
        ensures
            res@ == "unknown swipe gesture type: "@ + self.unknown@,
    {
        "unknown swipe gesture type: ".to_owned().concat(self.unknown.as_str())
    }
}

/// A text that names no type of pinch.
#[derive(Debug)]
pub struct UnknownPinchType {
    pub unknown: String,
}

impl UnknownPinchType {
    /// The words in which the text is refused.
    pub fn message(&self) -> (res: String)
        ensures
            res@ == "unknown pinch gesture type: "@ + self.unknown@,
    {
        "unknown pinch gesture type: ".to_owned().concat(self.unknown.as_str())
    }
}

impl SwipeType {
    /// The name of a type of swipe.
    pub open spec fn name(self) -> Seq<char> {
        match self {
            SwipeType::Any => "Swipe"@,
            SwipeType::Up => "SwipeUp"@,
            SwipeType::Down => "SwipeDown"@,
            SwipeType::Left => "SwipeLeft"@,
            SwipeType::Right => "SwipeRight"@,
            SwipeType::Vertical => "SwipeVertical"@,
            SwipeType::Horizontal => "SwipeHorizontal"@,
        }
    }

    /// The type of swipe that a text names.
    pub open spec fn named(s: Seq<char>) -> Option<SwipeType> {
        if s == "Swipe"@ {
            Some(SwipeType::Any)
        } else if s == "SwipeUp"@ {
            Some(SwipeType::Up)
        } else if s == "SwipeDown"@ {
            Some(SwipeType::Down)
        } else if s == "SwipeLeft"@ {
            Some(SwipeType::Left)
        } else if s == "SwipeRight"@ {
            Some(SwipeType::Right)
        } else if s == "SwipeVertical"@ {
            Some(SwipeType::Vertical)
        } else if s == "SwipeHorizontal"@ {
            Some(SwipeType::Horizontal)
        } else {
            None
        }
    }

    /// The type of swipe that a text names.
    pub fn from_str(s: &str) -> (res: Result<Self, UnknownSwipeType>)
        ensures
            match res {
                Ok(swipe_type) => SwipeType::named(s@) == Some(swipe_type),
                Err(e) => SwipeType::named(s@) is None && e.unknown@ == s@,
            },
    {
        if text::same_text(s, "Swipe") {
            Ok(SwipeType::Any)
        } else if text::same_text(s, "SwipeUp") {
            Ok(SwipeType::Up)
        } else if text::same_text(s, "SwipeDown") {
            Ok(SwipeType::Down)
        } else if text::same_text(s, "SwipeLeft") {
            Ok(SwipeType::Left)
        } else if text::same_text(s, "SwipeRight") {
            Ok(SwipeType::Right)
        } else if text::same_text(s, "SwipeVertical") {
            Ok(SwipeType::Vertical)
        } else if text::same_text(s, "SwipeHorizontal") {
            Ok(SwipeType::Horizontal)
        } else {
            Err(UnknownSwipeType { unknown: s.to_owned() })
        }
    }
}

impl FromStr for SwipeType {
    type Err = UnknownSwipeType;

    fn from_str(s: &str) -> (res: Result<Self, UnknownSwipeType>)
        ensures
            match res {
                Ok(swipe_type) => SwipeType::named(s@) == Some(swipe_type),
                Err(e) => SwipeType::named(s@) is None && e.unknown@ == s@,
            },
    {
        SwipeType::from_str(s)
    }
}

impl PinchType {
    /// The name of a type of pinch.
    pub open spec fn name(self) -> Seq<char> {
        match self {
            PinchType::Any => "Pinch"@,
            PinchType::In => "PinchIn"@,
            PinchType::Out => "PinchOut"@,
        }
    }

    /// The type of pinch that a text names.
    pub open spec fn named(s: Seq<char>) -> Option<PinchType> {
        if s == "Pinch"@ {
            Some(PinchType::Any)
        } else if s == "PinchIn"@ {
            Some(PinchType::In)
        } else if s == "PinchOut"@ {
            Some(PinchType::Out)
        } else {
            None
        }
    }

    /// The type of pinch that a text names.
    pub fn from_str(s: &str) -> (res: Result<Self, UnknownPinchType>)
        ensures
            match res {
                Ok(pinch_type) => PinchType::named(s@) == Some(pinch_type),
                Err(e) => PinchType::named(s@) is None && e.unknown@ == s@,
            },
    {
        if text::same_text(s, "Pinch") {
            Ok(PinchType::Any)
        } else if text::same_text(s, "PinchIn") {
            Ok(PinchType::In)
        } else if text::same_text(s, "PinchOut") {
            Ok(PinchType::Out)
        } else {
            Err(UnknownPinchType { unknown: s.to_owned() })
        }
    }
}

impl FromStr for PinchType {
    type Err = UnknownPinchType;

    fn from_str(s: &str) -> (res: Result<Self, UnknownPinchType>)
        ensures
            match res {
                Ok(pinch_type) => PinchType::named(s@) == Some(pinch_type),
                Err(e) => PinchType::named(s@) is None && e.unknown@ == s@,
            },
    {
        PinchType::from_str(s)
    }
}

/// A text up to its first dash.
pub open spec fn before_dash(s: Seq<char>) -> Seq<char> {
    match s.index_of_first('-') {
        Some(i) => s.take(i),
        None => s,
    }
}

/// A text behind its first dash, where it has one.
pub open spec fn after_dash(s: Seq<char>) -> Option<Seq<char>> {
    match s.index_of_first('-') {
        Some(i) => Some(s.skip(i + 1)),
        None => None,
    }
}

/// Cuts a text at its first dash.
fn split_at_dash(s: &str) -> (res: (&str, Option<&str>))
    ensures
        res.0@ == before_dash(s@),
        match res.1 {
            Some(rest) => after_dash(s@) == Some(rest@),
            None => after_dash(s@) is None,
        },
{
    proof {
        s@.index_of_first_ensures('-');
    }
    match text::first_position(s, '-') {
        Some(i) => {
            let len = s.unicode_len();
            (s.substring_char(0, i), Some(s.substring_char(i + 1, len)))
        },
        None => (s, None),
    }
}

/// The swipe that a text writes: its number of fingers, a dash and its type. What follows a
/// second dash is left out of account.
pub open spec fn swipe_of<E>(s: Seq<char>) -> Result<(u8, SwipeType), DecodeErrorView<E>> {
    let fingers = before_dash(s);
    match text::byte_value(fingers) {
        None => Err(DecodeErrorView::InvalidFingers(text::byte_error_text(fingers))),
        Some(count) => match after_dash(s) {
            None => Err(DecodeErrorView::MissingSwipeType),
            Some(rest) => match SwipeType::named(before_dash(rest)) {
                None => Err(DecodeErrorView::InvalidSwipeType(before_dash(rest))),
                Some(swipe_type) => Ok((count, swipe_type)),
            },
        },
    }
}

/// The swipe that a text writes.
pub fn parse_swipe<E>(s: &str) -> (res: Result<(u8, SwipeType), DecodeError<E>>)
    ensures
        match res {
            Ok(swipe) => swipe_of::<E>(s@) == Ok::<(u8, SwipeType), DecodeErrorView<E>>(swipe),
            Err(e) => swipe_of::<E>(s@) == Err::<(u8, SwipeType), DecodeErrorView<E>>(e@),
        },
{
    let (first, rest) = split_at_dash(s);
    let fingers: u8 = match text::parse_byte(first) {
        Ok(fingers) => fingers,
        Err(reason) => {
            return Err(DecodeError::InvalidFingers(reason));
        },
    };
    let second = match rest {
        Some(rest) => split_at_dash(rest).0,
        None => {
            return Err(DecodeError::MissingSwipeType);
        },
    };
    match SwipeType::from_str(second) {
        Ok(swipe_type) => Ok((fingers, swipe_type)),
        Err(e) => Err(DecodeError::InvalidSwipeType(e.unknown)),
    }
}

/// The modifiers in the name of a bind: what stands before its last plus sign.
pub open spec fn modifiers_part(name: Seq<char>) -> Option<Seq<char>> {
    match name.index_of_last('+') {
        Some(i) => Some(name.take(i)),
        None => None,
    }
}

/// The gesture in the name of a bind: what stands behind its last plus sign.
pub open spec fn gesture_part(name: Seq<char>) -> Seq<char> {
    match name.index_of_last('+') {
        Some(i) => name.skip(i + 1),
        None => name,
    }
}

/// Cuts the name of a bind into its modifiers and its gesture.
pub fn split_name(name: &str) -> (res: (Option<&str>, &str))
    ensures
        match res.0 {
            Some(modifiers) => modifiers_part(name@) == Some(modifiers@),
            None => modifiers_part(name@) is None,
        },
        res.1@ == gesture_part(name@),
{
    proof {
        name@.index_of_last_ensures('+');
    }
    match text::last_position(name, '+') {
        Some(i) => {
            let len = name.unicode_len();
            (Some(name.substring_char(0, i)), name.substring_char(i + 1, len))
        },
        None => (None, name),
    }
}

/// Whether the gesture that a text writes is a swipe: behind modifiers it begins with a number,
/// otherwise with an underscore.
pub open spec fn is_swipe(has_modifiers: bool, s: Seq<char>) -> bool {
    s.len() > 0 && if has_modifiers {
        text::is_numeric(s[0])
    } else {
        s[0] == '_'
    }
}

/// The gesture that a text writes, behind modifiers or without them.
pub open spec fn gesture_of<E>(has_modifiers: bool, s: Seq<char>) -> Result<
    Gesture,
    DecodeErrorView<E>,
> {
    if is_swipe(has_modifiers, s) {
        match swipe_of::<E>(
            if has_modifiers {
                s
            } else {
                s.skip(1)
            },
        ) {
            Ok((fingers, swipe_type)) => Ok(Gesture::Swipe(fingers, swipe_type)),
            Err(e) => Err(e),
        }
    } else {
        match PinchType::named(s) {
            Some(pinch_type) => Ok(Gesture::Pinch(pinch_type)),
            None => Err(DecodeErrorView::InvalidPinchType(s)),
        }
    }
}

/// The gesture that a text writes, behind modifiers or without them.
pub fn parse_gesture<E>(has_modifiers: bool, s: &str) -> (res: Result<Gesture, DecodeError<E>>)
    ensures
        match res {
            Ok(gesture) => gesture_of::<E>(has_modifiers, s@) == Ok::<Gesture, DecodeErrorView<E>>(
                gesture,
            ),
            Err(e) => gesture_of::<E>(has_modifiers, s@) == Err::<Gesture, DecodeErrorView<E>>(e@),
        },
{
    let swipe = if s.is_empty() {
        None
    } else if has_modifiers {
        if text::char_is_numeric(s.get_char(0)) {
            Some(s)
        } else {
            None
        }
    } else if s.get_char(0) == '_' {
        let len = s.unicode_len();
        Some(s.substring_char(1, len))
    } else {
        None
    };
    match swipe {
        Some(written) => match parse_swipe::<E>(written) {
            Ok((fingers, swipe_type)) => Ok(Gesture::Swipe(fingers, swipe_type)),
            Err(e) => Err(e),
        },
        None => match PinchType::from_str(s) {
            Ok(pinch_type) => Ok(Gesture::Pinch(pinch_type)),
            Err(e) => Err(DecodeError::InvalidPinchType(e.unknown)),
        },
    }
}

} // verus!
