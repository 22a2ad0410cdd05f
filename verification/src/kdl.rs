//! What decoding reads of a configuration node, and what it reports.
use vstd::prelude::*;
use vstd::string::*;

verus! {

/// A configuration node, as far as decoding reads it.
pub struct Node {
    /// The type name in parentheses before the node's name.
    pub type_annotation: Option<String>,
    pub node_name: String,
    /// How many arguments the node has.
    pub arguments: usize,
    /// How many properties the node has.
    pub properties: usize,
    /// How many children the node has.
    pub children: usize,
}

/// Why a node could not be decoded. `E` is what decoding an action can fail with.
pub enum DecodeError<E> {
    /// The node has a type name and should have none.
    UnexpectedTypeName,
    /// The node has this argument and should have none.
    UnexpectedArgument(usize),
    /// The node has this property and should have none.
    UnexpectedProperty(usize),
    /// The text before the gesture is no set of modifiers, for this reason.
    InvalidModifiers(String),
    /// The number of fingers is no byte, for this reason.
    InvalidFingers(String),
    /// Nothing follows the number of fingers.
    MissingSwipeType,
    /// This is no type of swipe.
    InvalidSwipeType(String),
    /// This is no type of pinch.
    InvalidPinchType(String),
    /// The node has no child to take an action from.
    MissingAction,
    /// The action could not be decoded.
    Action(E),
}

/// A [`DecodeError`] with its texts as sequences of characters.
pub enum DecodeErrorView<E> {
    UnexpectedTypeName,
    UnexpectedArgument(usize),
    UnexpectedProperty(usize),
    InvalidModifiers(Seq<char>),
    InvalidFingers(Seq<char>),
    MissingSwipeType,
    InvalidSwipeType(Seq<char>),
    InvalidPinchType(Seq<char>),
    MissingAction,
    Action(E),
}

impl<E> View for DecodeError<E> {
    type V = DecodeErrorView<E>;

    open spec fn view(&self) -> DecodeErrorView<E> {
        match *self {
            DecodeError::UnexpectedTypeName => DecodeErrorView::UnexpectedTypeName,
            DecodeError::UnexpectedArgument(i) => DecodeErrorView::UnexpectedArgument(i),
            DecodeError::UnexpectedProperty(i) => DecodeErrorView::UnexpectedProperty(i),
            DecodeError::InvalidModifiers(reason) => DecodeErrorView::InvalidModifiers(reason@),
            DecodeError::InvalidFingers(reason) => DecodeErrorView::InvalidFingers(reason@),
            DecodeError::MissingSwipeType => DecodeErrorView::MissingSwipeType,
            DecodeError::InvalidSwipeType(unknown) => DecodeErrorView::InvalidSwipeType(unknown@),
            DecodeError::InvalidPinchType(unknown) => DecodeErrorView::InvalidPinchType(unknown@),
            DecodeError::MissingAction => DecodeErrorView::MissingAction,
            DecodeError::Action(e) => DecodeErrorView::Action(e),
        }
    }
}

impl<E> DecodeErrorView<E> {
    /// The sort of element that was not expected.
    pub open spec fn unexpected(self) -> Option<Seq<char>> {
        match self {
            DecodeErrorView::UnexpectedTypeName => Some("type name"@),
            DecodeErrorView::UnexpectedArgument(_) => Some("argument"@),
            DecodeErrorView::UnexpectedProperty(_) => Some("property"@),
            _ => None,
        }
    }

    /// The words in which the error is reported; those of an action's error are its own.
    pub open spec fn message(self) -> Option<Seq<char>> {
        match self {
            DecodeErrorView::UnexpectedTypeName => Some("no type name expected for this node"@),
            DecodeErrorView::UnexpectedArgument(_) => Some("no arguments expected for this node"@),
            DecodeErrorView::UnexpectedProperty(_) => Some("no properties expected for this node"@),
            DecodeErrorView::InvalidModifiers(_) => Some("invalid modifiers"@),
            DecodeErrorView::InvalidFingers(reason) => Some(reason),
            DecodeErrorView::MissingSwipeType => Some("missing swipe gesture type"@),
            DecodeErrorView::InvalidSwipeType(_) => Some("invalid swipe gesture type"@),
            DecodeErrorView::InvalidPinchType(unknown) => Some(
                "unknown pinch gesture type: "@ + unknown,
            ),
            DecodeErrorView::MissingAction => Some("expected an action for this gesture bind"@),
            DecodeErrorView::Action(_) => None,
        }
    }

    /// The words of what lies behind the error.
    pub open spec fn cause(self) -> Option<Seq<char>> {
        match self {
            DecodeErrorView::InvalidModifiers(reason) => Some(reason),
            DecodeErrorView::InvalidSwipeType(unknown) => Some(
                "unknown swipe gesture type: "@ + unknown,
            ),
            _ => None,
        }
    }
}

/// The characters of a text, where there is one.
pub open spec fn option_view(text: Option<String>) -> Option<Seq<char>> {
    match text {
        Some(text) => Some(text@),
        None => None,
    }
}

impl<E> DecodeError<E> {
    /// The sort of element that was not expected.
    pub fn unexpected(&self) -> (res: Option<&'static str>)
        ensures
            match res {
                Some(sort) => self@.unexpected() == Some(sort@),
                None => self@.unexpected() is None,
            },
    {
        match self {
            DecodeError::UnexpectedTypeName => Some("type name"),
            DecodeError::UnexpectedArgument(_) => Some("argument"),
            DecodeError::UnexpectedProperty(_) => Some("property"),
            _ => None,
        }
    }

    /// The words in which the error is reported; those of an action's error are its own.
    pub fn message(&self) -> (res: Option<String>)
        ensures
            option_view(res) == self@.message(),
    {
        match self {
            DecodeError::UnexpectedTypeName => Some(
                "no type name expected for this node".to_owned(),
            ),
            DecodeError::UnexpectedArgument(_) => Some(
                "no arguments expected for this node".to_owned(),
            ),
            DecodeError::UnexpectedProperty(_) => Some(
                "no properties expected for this node".to_owned(),
            ),
            DecodeError::InvalidModifiers(_) => Some("invalid modifiers".to_owned()),
            DecodeError::InvalidFingers(reason) => Some(reason.clone()),
            DecodeError::MissingSwipeType => Some("missing swipe gesture type".to_owned()),
            DecodeError::InvalidSwipeType(_) => Some("invalid swipe gesture type".to_owned()),
            DecodeError::InvalidPinchType(unknown) => Some(
                "unknown pinch gesture type: ".to_owned().concat(unknown.as_str()),
            ),
            DecodeError::MissingAction => Some(
                "expected an action for this gesture bind".to_owned(),
            ),
            DecodeError::Action(_) => None,
        }
    }

    /// The words of what lies behind the error.
    pub fn cause(&self) -> (res: Option<String>)
        ensures
            option_view(res) == self@.cause(),
    {
        match self {
            DecodeError::InvalidModifiers(reason) => Some(reason.clone()),
            DecodeError::InvalidSwipeType(unknown) => Some(
                "unknown swipe gesture type: ".to_owned().concat(unknown.as_str()),
            ),
            _ => None,
        }
    }
}

/// The errors that decoding has reported so far. Decoding goes on after each of them.
pub struct Context<E> {
    pub errors: Vec<DecodeError<E>>,
}

impl<E> View for Context<E> {
    type V = Seq<DecodeErrorView<E>>;

    open spec fn view(&self) -> Seq<DecodeErrorView<E>> {
        self.errors@.map_values(|e: DecodeError<E>| e@)
    }
}

/// An error for a type name, where the node has one.
pub open spec fn type_name_errors<E>(node: Node) -> Seq<DecodeErrorView<E>> {
    if node.type_annotation is Some {
        seq![DecodeErrorView::UnexpectedTypeName]
    } else {
        Seq::empty()
    }
}

/// An error for each argument.
pub open spec fn argument_errors<E>(arguments: int) -> Seq<DecodeErrorView<E>> {
    Seq::new(arguments as nat, |i: int| DecodeErrorView::UnexpectedArgument(i as usize))
}

/// An error for each property.
pub open spec fn property_errors<E>(properties: int) -> Seq<DecodeErrorView<E>> {
    Seq::new(properties as nat, |i: int| DecodeErrorView::UnexpectedProperty(i as usize))
}

impl<E> Context<E> {
    /// A context in which nothing has been reported.
    pub fn new() -> (res: Self)
        ensures
            res@ == Seq::<DecodeErrorView<E>>::empty(),
    {
        let res = Context { errors: Vec::new() };
        assert(res@ =~= Seq::empty());
        res
    }

    /// Reports an error.
    pub fn emit_error(&mut self, error: DecodeError<E>)
        ensures
            final(self)@ == old(self)@.push(error@),
    {
        let ghost before = self@;
        self.errors.push(error);
        assert(self@ =~= before.push(error@));
    }
}

/// Reports a node's type name and its arguments.
pub fn expect_no_arguments<E>(node: &Node, ctx: &mut Context<E>)
    ensures
        final(ctx)@ == old(ctx)@ + type_name_errors::<E>(*node) + argument_errors::<E>(
            node.arguments as int,
        ),
{
    let ghost before = ctx@;
    if node.type_annotation.is_some() {
        ctx.emit_error(DecodeError::UnexpectedTypeName);
    }
    assert(ctx@ =~= before + type_name_errors::<E>(*node) + argument_errors::<E>(0));
    let mut i: usize = 0;
    while i < node.arguments
        invariant
            i <= node.arguments,
            ctx@ == before + type_name_errors::<E>(*node) + argument_errors::<E>(i as int),
        decreases node.arguments - i,
    {
        ctx.emit_error(DecodeError::UnexpectedArgument(i));
        i += 1;
        assert(ctx@ =~= before + type_name_errors::<E>(*node) + argument_errors::<E>(i as int));
    }
}

/// Reports whatever a node has besides children.
pub fn expect_only_children<E>(node: &Node, ctx: &mut Context<E>)
    ensures
        final(ctx)@ == old(ctx)@ + type_name_errors::<E>(*node) + argument_errors::<E>(
            node.arguments as int,
        ) + property_errors::<E>(node.properties as int),
{
    expect_no_arguments(node, ctx);
    let ghost before = ctx@;
    assert(ctx@ =~= before + property_errors::<E>(0));
    let mut i: usize = 0;
    while i < node.properties
        invariant
            i <= node.properties,
            ctx@ == before + property_errors::<E>(i as int),
        decreases node.properties - i,
    {
        ctx.emit_error(DecodeError::UnexpectedProperty(i));
        i += 1;
        assert(ctx@ =~= before + property_errors::<E>(i as int));
    }
}

} // verus!
