//! Properties of the descriptor grammar, stated over what `parse_descriptor`
//! is specified to return.
use crate::ascii::{
    is_ascii_whitespace, lemma_trimmed_end_bounds, lemma_trimmed_start_bounds, trim_ascii,
};
use crate::parser::{
    component_at, components_from, is_css_whitespace, lemma_closing_bracket,
    lemma_component_advances, name_at, parse_model, parsed_component_wf, skip_ws,
};
use crate::{ComponentModel, NameModel, ParseError};
use vstd::prelude::*;

verus! {

proof fn lemma_components_from_wf(b: Seq<u8>, p: int, acc: Seq<ComponentModel>)
    requires
        forall|i: int| 0 <= i < acc.len() ==> parsed_component_wf(#[trigger] acc[i]),
    ensures
        components_from(b, p, acc) matches Ok(s) ==> forall|i: int|
            0 <= i < s.len() ==> parsed_component_wf(#[trigger] s[i]),
    decreases b.len() - p,
{
    if 0 <= p < b.len() {
        if is_css_whitespace(b[p]) {
            lemma_components_from_wf(b, p + 1, acc);
        } else if b[p] == '|' as u8 && acc.len() == 0 {
        } else {
            let start = if b[p] == '|' as u8 {
                p + 1
            } else {
                p
            };
            lemma_component_advances(b, start);
            if let Ok((c, q)) = component_at(b, start) {
                let next = acc.push(c);
                assert forall|i: int| 0 <= i < next.len() implies parsed_component_wf(
                    #[trigger] next[i],
                ) by {
                    if i < acc.len() {
                        assert(next[i] == acc[i]);
                    }
                }
                lemma_components_from_wf(b, q, next);
            }
        }
    }
}

/// Every component of a parsed descriptor is well formed: a pre-multiplied
/// data type (such as `<transform-list>`) never carries a multiplier, even
/// where `+` or `#` follows it in the text, and no custom identifier is a
/// CSS-wide keyword in any casing.
pub proof fn lemma_parsed_components_wf(b: Seq<u8>)
    ensures
        parse_model(b) matches Ok(s) ==> forall|i: int|
            0 <= i < s.len() ==> parsed_component_wf(#[trigger] s[i]),
{
    lemma_components_from_wf(trim_ascii(b), 0, Seq::empty());
}

proof fn lemma_components_from_nonempty(b: Seq<u8>, p: int, acc: Seq<ComponentModel>)
    ensures
        components_from(b, p, acc) matches Ok(s) ==> s.len() >= 1,
    decreases b.len() - p,
{
    if 0 <= p < b.len() {
        if is_css_whitespace(b[p]) {
            lemma_components_from_nonempty(b, p + 1, acc);
        } else if b[p] == '|' as u8 && acc.len() == 0 {
        } else {
            let start = if b[p] == '|' as u8 {
                p + 1
            } else {
                p
            };
            lemma_component_advances(b, start);
            if let Ok((c, q)) = component_at(b, start) {
                lemma_components_from_nonempty(b, q, acc.push(c));
            }
        }
    }
}

/// Only the universal descriptor, a lone `*`, has no component: every other
/// descriptor that parses has at least one.
pub proof fn lemma_non_universal_has_components(b: Seq<u8>)
    requires
        !(trim_ascii(b).len() == 1 && trim_ascii(b)[0] == '*' as u8),
    ensures
        parse_model(b) matches Ok(s) ==> s.len() >= 1,
{
    lemma_components_from_nonempty(trim_ascii(b), 0, Seq::empty());
}

/// An input made of ASCII whitespace alone, or empty, is rejected as empty.
pub proof fn lemma_whitespace_only_is_empty(b: Seq<u8>)
    requires
        forall|i: int| 0 <= i < b.len() ==> is_ascii_whitespace(#[trigger] b[i]),
    ensures
        parse_model(b) == Err::<Seq<ComponentModel>, ParseError>(ParseError::EmptyInput),
{
    lemma_trimmed_start_bounds(b, 0);
}

/// A lone `*` with any ASCII whitespace around it is the universal descriptor.
pub proof fn lemma_lone_asterisk_is_universal(b: Seq<u8>, k: int)
    requires
        0 <= k < b.len(),
        b[k] == '*' as u8,
        forall|i: int| 0 <= i < b.len() && i != k ==> is_ascii_whitespace(#[trigger] b[i]),
    ensures
        parse_model(b) == Ok::<Seq<ComponentModel>, ParseError>(Seq::empty()),
{
    lemma_trimmed_start_bounds(b, 0);
    let s = crate::ascii::trimmed_start(b, 0);
    lemma_trimmed_end_bounds(b, s, b.len() as int);
}

/// A `|` before any component is rejected.
pub proof fn lemma_leading_pipe_rejected(b: Seq<u8>)
    requires
        trim_ascii(b).len() > 0,
        trim_ascii(b)[0] == '|' as u8,
    ensures
        parse_model(b) == Err::<Seq<ComponentModel>, ParseError>(ParseError::UnexpectedPipe),
{
}

/// A descriptor that opens with `<` and holds no `>` is rejected as an
/// unclosed data type name.
pub proof fn lemma_unclosed_data_type_name(b: Seq<u8>)
    requires
        trim_ascii(b).len() > 0,
        trim_ascii(b)[0] == '<' as u8,
        forall|i: int| 0 <= i < trim_ascii(b).len() ==> #[trigger] trim_ascii(b)[i] != '>' as u8,
    ensures
        parse_model(b) == Err::<Seq<ComponentModel>, ParseError>(
            ParseError::UnclosedDataTypeName,
        ),
{
    let t = trim_ascii(b);
    lemma_closing_bracket(t, 1);
    assert(skip_ws(t, 0) == 0);
    assert(name_at(t, 0) == Err::<(NameModel, int), ParseError>(
        ParseError::UnclosedDataTypeName,
    ));
}

/// Parsing is a function of the input's bytes: equal inputs give equal
/// results.
pub proof fn lemma_parse_is_pure(a: Seq<u8>, b: Seq<u8>)
    requires
        a == b,
    ensures
        parse_model(a) == parse_model(b),
{
}

} // verus!
