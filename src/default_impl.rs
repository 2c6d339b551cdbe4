use crate::{data_type_expansion, Component, ComponentModel, ComponentName, Multiplier};
use vstd::prelude::*;
use vstd::string::{StrSliceExecFns, StringSliceAdditionalSpecFns};

verus! {

/// The built-in data types that a descriptor can name between `<` and `>`.
#[derive(Clone, Copy, Debug, PartialEq, Eq, Structural)]
pub enum DataType {
    Length,
    Number,
    Percentage,
    LengthPercentage,
    Color,
    Image,
    Url,
    Integer,
    Angle,
    Time,
    Resolution,
    TransformFunction,
    TransformList,
    CustomIdent,
}

/// The name, written between `<` and `>`, that denotes a data type.
pub open spec fn data_type_name(d: DataType) -> Seq<char> {
    match d {
        DataType::Length => seq!['l', 'e', 'n', 'g', 't', 'h'],
        DataType::Number => seq!['n', 'u', 'm', 'b', 'e', 'r'],
        DataType::Percentage => seq!['p', 'e', 'r', 'c', 'e', 'n', 't', 'a', 'g', 'e'],
        DataType::LengthPercentage => seq!['l', 'e', 'n', 'g', 't', 'h', '-', 'p', 'e', 'r', 'c', 'e', 'n', 't', 'a', 'g', 'e'],
        DataType::Color => seq!['c', 'o', 'l', 'o', 'r'],
        DataType::Image => seq!['i', 'm', 'a', 'g', 'e'],
        DataType::Url => seq!['u', 'r', 'l'],
        DataType::Integer => seq!['i', 'n', 't', 'e', 'g', 'e', 'r'],
        DataType::Angle => seq!['a', 'n', 'g', 'l', 'e'],
        DataType::Time => seq!['t', 'i', 'm', 'e'],
        DataType::Resolution => seq!['r', 'e', 's', 'o', 'l', 'u', 't', 'i', 'o', 'n'],
        DataType::TransformFunction => seq!['t', 'r', 'a', 'n', 's', 'f', 'o', 'r', 'm', '-', 'f', 'u', 'n', 'c', 't', 'i', 'o', 'n'],
        DataType::CustomIdent => seq!['c', 'u', 's', 't', 'o', 'm', '-', 'i', 'd', 'e', 'n', 't'],
        DataType::TransformList => seq!['t', 'r', 'a', 'n', 's', 'f', 'o', 'r', 'm', '-', 'l', 'i', 's', 't'],
    }
}

/// Whether the bytes spell the ASCII name exactly.
pub open spec fn matches_name(b: Seq<u8>, name: Seq<char>) -> bool {
    b.len() == name.len() && forall|i: int| 0 <= i < b.len() ==> b[i] == name[i] as u8
}

/// The data type whose name the bytes spell, compared byte for byte.
pub open spec fn data_type_named(b: Seq<u8>) -> Option<DataType> {
    if matches_name(b, data_type_name(DataType::Length)) {
        Some(DataType::Length)
    } else if matches_name(b, data_type_name(DataType::Number)) {
        Some(DataType::Number)
    } else if matches_name(b, data_type_name(DataType::Percentage)) {
        Some(DataType::Percentage)
    } else if matches_name(b, data_type_name(DataType::LengthPercentage)) {
        Some(DataType::LengthPercentage)
    } else if matches_name(b, data_type_name(DataType::Color)) {
        Some(DataType::Color)
    } else if matches_name(b, data_type_name(DataType::Image)) {
        Some(DataType::Image)
    } else if matches_name(b, data_type_name(DataType::Url)) {
        Some(DataType::Url)
    } else if matches_name(b, data_type_name(DataType::Integer)) {
        Some(DataType::Integer)
    } else if matches_name(b, data_type_name(DataType::Angle)) {
        Some(DataType::Angle)
    } else if matches_name(b, data_type_name(DataType::Time)) {
        Some(DataType::Time)
    } else if matches_name(b, data_type_name(DataType::Resolution)) {
        Some(DataType::Resolution)
    } else if matches_name(b, data_type_name(DataType::TransformFunction)) {
        Some(DataType::TransformFunction)
    } else if matches_name(b, data_type_name(DataType::CustomIdent)) {
        Some(DataType::CustomIdent)
    } else if matches_name(b, data_type_name(DataType::TransformList)) {
        Some(DataType::TransformList)
    } else {
        None
    }
}

fn bytes_match_name(ty: &[u8], name: &Vec<char>) -> (r: bool)
    ensures
        r == matches_name(ty@, name@),
{
    if ty.len() != name.len() {
        return false;
    }
    let mut i: usize = 0;
    while i < ty.len()
        invariant
            ty@.len() == name@.len(),
            i <= ty@.len(),
            forall|k: int| 0 <= k < i ==> ty@[k] == name@[k] as u8,
        decreases ty@.len() - i,
    {
        if ty[i] != name[i] as u8 {
            return false;
        }
        i += 1;
    }
    true
}

impl DataType {
    fn name_chars(&self) -> (r: Vec<char>)
        ensures
            r@ == data_type_name(*self),
    {
        match self {
            DataType::Length => vec!['l', 'e', 'n', 'g', 't', 'h'],
            DataType::Number => vec!['n', 'u', 'm', 'b', 'e', 'r'],
            DataType::Percentage => vec!['p', 'e', 'r', 'c', 'e', 'n', 't', 'a', 'g', 'e'],
            DataType::LengthPercentage => vec!['l', 'e', 'n', 'g', 't', 'h', '-', 'p', 'e', 'r', 'c', 'e', 'n', 't', 'a', 'g', 'e'],
            DataType::Color => vec!['c', 'o', 'l', 'o', 'r'],
            DataType::Image => vec!['i', 'm', 'a', 'g', 'e'],
            DataType::Url => vec!['u', 'r', 'l'],
            DataType::Integer => vec!['i', 'n', 't', 'e', 'g', 'e', 'r'],
            DataType::Angle => vec!['a', 'n', 'g', 'l', 'e'],
            DataType::Time => vec!['t', 'i', 'm', 'e'],
            DataType::Resolution => vec!['r', 'e', 's', 'o', 'l', 'u', 't', 'i', 'o', 'n'],
            DataType::TransformFunction => vec!['t', 'r', 'a', 'n', 's', 'f', 'o', 'r', 'm', '-', 'f', 'u', 'n', 'c', 't', 'i', 'o', 'n'],
            DataType::CustomIdent => vec!['c', 'u', 's', 't', 'o', 'm', '-', 'i', 'd', 'e', 'n', 't'],
            DataType::TransformList => vec!['t', 'r', 'a', 'n', 's', 'f', 'o', 'r', 'm', '-', 'l', 'i', 's', 't'],
        }
    }

    /// The expanded form of this data type, if it is pre-multiplied.
    pub fn unpremultiply(&self) -> (r: Option<Component>)
        ensures
            r matches Some(c) ==> data_type_expansion(*self) == Some(c@),
            r is None ==> data_type_expansion(*self) is None,
    {
        match *self {
            DataType::TransformList => Some(
                Component::new(
                    ComponentName::DataType(DataType::TransformFunction),
                    Some(Multiplier::Space),
                ),
            ),
            _ => None,
        }
    }

    /// The data type that `ty` names, matched byte for byte and case
    /// sensitively; none for a name outside the vocabulary.
    pub fn from_bytes(ty: &[u8]) -> (r: Option<Self>)
        ensures
            r == data_type_named(ty@),
    {
        if bytes_match_name(ty, &DataType::Length.name_chars()) {
            Some(DataType::Length)
        } else if bytes_match_name(ty, &DataType::Number.name_chars()) {
            Some(DataType::Number)
        } else if bytes_match_name(ty, &DataType::Percentage.name_chars()) {
            Some(DataType::Percentage)
        } else if bytes_match_name(ty, &DataType::LengthPercentage.name_chars()) {
            Some(DataType::LengthPercentage)
        } else if bytes_match_name(ty, &DataType::Color.name_chars()) {
            Some(DataType::Color)
        } else if bytes_match_name(ty, &DataType::Image.name_chars()) {
            Some(DataType::Image)
        } else if bytes_match_name(ty, &DataType::Url.name_chars()) {
            Some(DataType::Url)
        } else if bytes_match_name(ty, &DataType::Integer.name_chars()) {
            Some(DataType::Integer)
        } else if bytes_match_name(ty, &DataType::Angle.name_chars()) {
            Some(DataType::Angle)
        } else if bytes_match_name(ty, &DataType::Time.name_chars()) {
            Some(DataType::Time)
        } else if bytes_match_name(ty, &DataType::Resolution.name_chars()) {
            Some(DataType::Resolution)
        } else if bytes_match_name(ty, &DataType::TransformFunction.name_chars()) {
            Some(DataType::TransformFunction)
        } else if bytes_match_name(ty, &DataType::CustomIdent.name_chars()) {
            Some(DataType::CustomIdent)
        } else if bytes_match_name(ty, &DataType::TransformList.name_chars()) {
            Some(DataType::TransformList)
        } else {
            None
        }
    }

    /// The data type that `ty` names; none for a name outside the vocabulary.
    pub fn from_str(ty: &str) -> (r: Option<Self>)
        ensures
            r == data_type_named(ty.spec_bytes()),
    {
        Self::from_bytes(ty.as_bytes())
    }
}

/// A custom identifier: an identifier that is not one of the CSS-wide
/// keywords.
#[derive(Clone, Debug, PartialEq)]
pub struct CustomIdent(String);

impl View for CustomIdent {
    type V = Seq<char>;

    closed spec fn view(&self) -> Seq<char> {
        self.0@
    }
}

/// A character folded to lower case when it is an ASCII capital letter.
pub open spec fn ascii_lower(c: char) -> int {
    if 'A' <= c <= 'Z' {
        c as int + 32
    } else {
        c as int
    }
}

/// Equality up to ASCII case.
pub open spec fn eq_ignore_ascii_case(a: Seq<char>, b: Seq<char>) -> bool {
    a.len() == b.len() && forall|i: int| 0 <= i < a.len() ==> ascii_lower(a[i]) == ascii_lower(b[i])
}

pub open spec fn keyword_inherit() -> Seq<char> {
    seq!['i', 'n', 'h', 'e', 'r', 'i', 't']
}

pub open spec fn keyword_reset() -> Seq<char> {
    seq!['r', 'e', 's', 'e', 't']
}

pub open spec fn keyword_revert() -> Seq<char> {
    seq!['r', 'e', 'v', 'e', 'r', 't']
}

pub open spec fn keyword_unset() -> Seq<char> {
    seq!['u', 'n', 's', 'e', 't']
}

pub open spec fn keyword_default() -> Seq<char> {
    seq!['d', 'e', 'f', 'a', 'u', 'l', 't']
}

/// Whether an identifier is, up to ASCII case, one of the CSS-wide keywords
/// that a custom identifier may not be.
pub open spec fn is_reserved_keyword(s: Seq<char>) -> bool {
    eq_ignore_ascii_case(s, keyword_inherit()) || eq_ignore_ascii_case(s, keyword_reset())
        || eq_ignore_ascii_case(s, keyword_revert()) || eq_ignore_ascii_case(s, keyword_unset())
        || eq_ignore_ascii_case(s, keyword_default())
}

fn lower_char(c: char) -> (r: u32)
    ensures
        r == ascii_lower(c),
{
    if 'A' <= c && c <= 'Z' {
        c as u32 + 32
    } else {
        c as u32
    }
}

fn str_eq_ignore_ascii_case(s: &str, keyword: &Vec<char>) -> (r: bool)
    ensures
        r == eq_ignore_ascii_case(s@, keyword@),
{
    let n = s.unicode_len();
    if n != keyword.len() {
        return false;
    }
    let mut i: usize = 0;
    while i < n
        invariant
            n == s@.len(),
            s@.len() == keyword@.len(),
            i <= n,
            forall|k: int| 0 <= k < i ==> ascii_lower(s@[k]) == ascii_lower(keyword@[k]),
        decreases n - i,
    {
        if lower_char(s.get_char(i)) != lower_char(keyword[i]) {
            return false;
        }
        i += 1;
    }
    true
}

impl CustomIdent {
    /// Wraps an identifier as a custom identifier; none when it is, up to
    /// ASCII case, `inherit`, `reset`, `revert`, `unset` or `default`.
    pub fn from_ident(ident: &str) -> (r: Option<Self>)
        ensures
            r is None <==> is_reserved_keyword(ident@),
            r matches Some(c) ==> c@ == ident@,
    {
        if str_eq_ignore_ascii_case(ident, &vec!['i', 'n', 'h', 'e', 'r', 'i', 't'])
            || str_eq_ignore_ascii_case(ident, &vec!['r', 'e', 's', 'e', 't'])
            || str_eq_ignore_ascii_case(ident, &vec!['r', 'e', 'v', 'e', 'r', 't'])
            || str_eq_ignore_ascii_case(ident, &vec!['u', 'n', 's', 'e', 't'])
            || str_eq_ignore_ascii_case(ident, &vec!['d', 'e', 'f', 'a', 'u', 'l', 't']) {
            return None;
        }
        Some(CustomIdent(ident.to_owned()))
    }
}

/// The built-in vocabulary: the data types above and custom identifiers.
#[derive(Debug, Clone, PartialEq)]
pub struct DefaultImpl;

impl DefaultImpl {
    /// The data type named between `<` and `>`, if any.
    pub fn data_type_name_from_str(ty: &str) -> (r: Option<DataType>)
        ensures
            r == data_type_named(ty.spec_bytes()),
    {
        DataType::from_str(ty)
    }

    /// The identifier as a custom identifier, unless it is reserved.
    pub fn custom_ident_from_ident(ident: &str) -> (r: Option<CustomIdent>)
        ensures
            r is None <==> is_reserved_keyword(ident@),
            r matches Some(c) ==> c@ == ident@,
    {
        CustomIdent::from_ident(ident)
    }

    /// The expanded form of a pre-multiplied data type.
    pub fn unpremultiply_data_type(ty: &DataType) -> (r: Option<Component>)
        ensures
            r matches Some(c) ==> data_type_expansion(*ty) == Some(c@),
            r is None ==> data_type_expansion(*ty) is None,
    {
        ty.unpremultiply()
    }
}

} // verus!
