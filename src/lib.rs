//! Parsing of syntax descriptors: the small grammar that a registered custom
//! style property uses to describe the values it accepts.
use std::borrow::Cow;
use vstd::prelude::*;

pub mod ascii;
pub mod default_impl;
pub mod laws;
pub mod parser;

pub use default_impl::{CustomIdent, DataType, DefaultImpl};
pub use parser::parse_descriptor;


verus! {

/// A parsed syntax descriptor: the ordered alternatives it accepts. No
/// component at all is the universal descriptor, which accepts any value.
#[derive(Debug, PartialEq)]
pub struct Descriptor {
    components: Vec<Component>,
}

/// Why a syntax descriptor could not be parsed.
#[derive(Clone, Copy, Debug, PartialEq, Eq, Structural)]
pub enum ParseError {
    EmptyInput,
    UnexpectedEOF,
    UnexpectedPipe,
    InvalidCustomIdent,
    InvalidNameStart,
    InvalidName,
    UnclosedDataTypeName,
    UnknownDataTypeName,
}

/// Repetition marker of a component: `+` (space separated) or `#` (comma
/// separated).
#[derive(Clone, Copy, Debug, PartialEq, Eq, Structural)]
pub enum Multiplier {
    Space,
    Comma,
}

/// One alternative of a descriptor: a name and an optional multiplier.
#[derive(Clone, Debug, PartialEq)]
pub struct Component {
    name: ComponentName,
    multiplier: Option<Multiplier>,
}

/// The name of a component: a built-in data type or a custom identifier.
#[derive(Clone, Debug, PartialEq)]
pub enum ComponentName {
    DataType(DataType),
    Ident(CustomIdent),
}

/// What a component name denotes.
pub enum NameModel {
    DataType(DataType),
    Ident(Seq<char>),
}

/// What a component denotes.
pub struct ComponentModel {
    pub name: NameModel,
    pub multiplier: Option<Multiplier>,
}

impl View for ComponentName {
    type V = NameModel;

    open spec fn view(&self) -> NameModel {
        match self {
            ComponentName::DataType(d) => NameModel::DataType(*d),
            ComponentName::Ident(i) => NameModel::Ident(i@),
        }
    }
}

impl View for Component {
    type V = ComponentModel;

    closed spec fn view(&self) -> ComponentModel {
        ComponentModel { name: self.name@, multiplier: self.multiplier }
    }
}

impl View for Descriptor {
    type V = Seq<ComponentModel>;

    closed spec fn view(&self) -> Seq<ComponentModel> {
        self.components@.map_values(|c: Component| c@)
    }
}

/// What each component of a sequence denotes.
pub open spec fn component_views(v: Seq<Component>) -> Seq<ComponentModel> {
    v.map_values(|c: Component| c@)
}

/// The expanded form of a pre-multiplied data type: `<transform-list>`
/// stands for one or more `<transform-function>` separated by spaces.
pub open spec fn data_type_expansion(d: DataType) -> Option<ComponentModel> {
    match d {
        DataType::TransformList => Some(
            ComponentModel {
                name: NameModel::DataType(DataType::TransformFunction),
                multiplier: Some(Multiplier::Space),
            },
        ),
        _ => None,
    }
}

/// The expanded form of a component name; none for a name that is not
/// pre-multiplied.
pub open spec fn name_expansion(n: NameModel) -> Option<ComponentModel> {
    match n {
        NameModel::DataType(d) => data_type_expansion(d),
        NameModel::Ident(_) => None,
    }
}

/// Whether a name is a pre-multiplied data type name.
pub open spec fn is_pre_multiplied_name(n: NameModel) -> bool {
    name_expansion(n) is Some
}

/// A pre-multiplied name never carries a multiplier of its own.
pub open spec fn component_wf(c: ComponentModel) -> bool {
    is_pre_multiplied_name(c.name) ==> c.multiplier is None
}

/// The component in its expanded form: the expansion of a pre-multiplied
/// name, else the component itself.
pub open spec fn unpremultiplied(c: ComponentModel) -> ComponentModel {
    match name_expansion(c.name) {
        Some(e) => e,
        None => c,
    }
}

impl Descriptor {
    /// The universal descriptor, which accepts any value.
    pub fn universal() -> (r: Self)
        ensures
            r@ == Seq::<ComponentModel>::empty(),
    {
        let r = Descriptor { components: Vec::new() };
        assert(r@ =~= Seq::<ComponentModel>::empty());
        r
    }

    pub(crate) fn from_components(components: Vec<Component>) -> (r: Self)
        ensures
            r@ == components@.map_values(|c: Component| c@),
    {
        Descriptor { components }
    }

    /// The components, in the order in which they were written.
    pub fn components(&self) -> (r: &[Component])
        ensures
            r@.map_values(|c: Component| c@) == self@,
    {
        self.components.as_slice()
    }
}

impl Component {
    pub(crate) fn new(name: ComponentName, multiplier: Option<Multiplier>) -> (r: Self)
        ensures
            r@ == (ComponentModel { name: name@, multiplier }),
    {
        Component { name, multiplier }
    }

    #[inline]
    pub fn name(&self) -> (r: &ComponentName)
        ensures
            r@ == self@.name,
    {
        &self.name
    }

    #[inline]
    pub fn multiplier(&self) -> (r: Option<Multiplier>)
        ensures
            r == self@.multiplier,
    {
        self.multiplier
    }

    /// The component in its expanded form: borrowed when it is not
    /// pre-multiplied, an owned expansion when it is.
    #[inline]
    pub fn unpremultipied(&self) -> (r: Cow<'_, Component>)
        ensures
            r@ == unpremultiplied(self@),
    {
        match self.name.unpremultiply() {
            Some(component) => Cow::Owned(component),
            None => Cow::Borrowed(self),
        }
    }
}

impl ComponentName {
    /// The expanded form of this name, if it is pre-multiplied.
    pub fn unpremultiply(&self) -> (r: Option<Component>)
        ensures
            r matches Some(c) ==> name_expansion(self@) == Some(c@),
            r is None ==> name_expansion(self@) is None,
    {
        match self {
            ComponentName::DataType(t) => t.unpremultiply(),
            ComponentName::Ident(..) => None,
        }
    }

    /// Whether this name is a pre-multiplied data type name.
    pub fn is_pre_multiplied(&self) -> (r: bool)
        ensures
            r == is_pre_multiplied_name(self@),
    {
        self.unpremultiply().is_some()
    }
}

} // verus!
