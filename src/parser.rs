use crate::ascii::{
    lemma_trimmed_end_bounds, lemma_trimmed_start_bounds, trim_ascii, trim_bounds,
};
use crate::default_impl::{
    ascii_lower, data_type_named, eq_ignore_ascii_case, is_reserved_keyword, keyword_default,
    keyword_inherit, keyword_reset, keyword_revert, keyword_unset, DataType, DefaultImpl,
};
use crate::{
    component_views, component_wf, is_pre_multiplied_name, Component, ComponentModel, ComponentName, Descriptor,
    Multiplier, NameModel, ParseError,
};
use vstd::prelude::*;
use vstd::string::StringSliceAdditionalSpecFns;
use vstd::utf8::{
    encode_utf8_valid_utf8, is_char_boundary, is_char_boundary_iff_not_is_continuation_byte,
    is_char_boundary_start_end_of_seq, length_of_first_scalar, pop_first_scalar, valid_utf8,
    valid_utf8_split,
};

verus! {

/* Character boundaries */

proof fn lemma_boundary_at_ascii(b: Seq<u8>, i: int)
    requires
        valid_utf8(b),
        0 <= i < b.len(),
        b[i] < 0x80,
    ensures
        is_char_boundary(b, i),
{
    is_char_boundary_iff_not_is_continuation_byte(b, i);
}

/// A boundary of the part of `b` that starts at the boundary `p` is a boundary
/// of `b`.
proof fn lemma_boundary_shift(b: Seq<u8>, p: int, k: int)
    requires
        valid_utf8(b),
        0 <= p <= b.len(),
        is_char_boundary(b, p),
        0 <= k <= b.len() - p,
        is_char_boundary(b.subrange(p, b.len() as int), k),
    ensures
        is_char_boundary(b, p + k),
{
    let rest = b.subrange(p, b.len() as int);
    valid_utf8_split(b, p);
    if p + k == b.len() {
        is_char_boundary_start_end_of_seq(b);
    } else {
        is_char_boundary_iff_not_is_continuation_byte(rest, k);
        is_char_boundary_iff_not_is_continuation_byte(b, p + k);
    }
}

proof fn lemma_boundary_after_ascii(b: Seq<u8>, i: int)
    requires
        valid_utf8(b),
        0 <= i < b.len(),
        b[i] < 0x80,
    ensures
        is_char_boundary(b, i + 1),
{
    lemma_boundary_at_ascii(b, i);
    let rest = b.subrange(i, b.len() as int);
    assert(rest[0] == b[i]);
    valid_utf8_split(b, i);
    assert(valid_utf8(pop_first_scalar(rest)));
    assert(length_of_first_scalar(rest) == 1);
    reveal_with_fuel(is_char_boundary, 2);
    assert(is_char_boundary(rest, 1));
    lemma_boundary_shift(b, i, 1);
}

/* The grammar */

/// Whitespace between the tokens of a descriptor: tab, line feed, carriage
/// return and space.
pub open spec fn is_css_whitespace(x: u8) -> bool {
    x == 9 || x == 10 || x == 13 || x == 32
}

/// An ASCII letter.
pub open spec fn is_css_letter(x: u8) -> bool {
    (65 <= x <= 90) || (97 <= x <= 122)
}

/// A byte that is not ASCII.
pub open spec fn is_css_non_ascii(x: u8) -> bool {
    x >= 0x80
}

/// A byte that may begin a name without an escape.
pub open spec fn is_css_name_start(x: u8) -> bool {
    is_css_letter(x) || is_css_non_ascii(x) || x == '_' as u8
}

/// The first index at or after `p` that does not hold whitespace.
pub open spec fn skip_ws(b: Seq<u8>, p: int) -> int
    decreases b.len() - p,
{
    if 0 <= p < b.len() && is_css_whitespace(b[p]) {
        skip_ws(b, p + 1)
    } else {
        p
    }
}

/// The first index at or after `p` that holds `>`.
pub open spec fn closing_bracket(b: Seq<u8>, p: int) -> Option<int>
    decreases b.len() - p,
{
    if p < 0 || p >= b.len() {
        None
    } else if b[p] == '>' as u8 {
        Some(p)
    } else {
        closing_bracket(b, p + 1)
    }
}

/// Names what cssparser's tokenizer reads at the start of `rest` when asked
/// for an identifier: the identifier's text, escapes resolved, and the number
/// of bytes read; none when no identifier token comes first.
pub uninterp spec fn css_ident_token(rest: Seq<u8>) -> Option<(Seq<char>, nat)>;

/// A byte that the tokenizer takes into a name without further ado: an ASCII
/// letter or digit, `_` or `-`.
pub open spec fn is_plain_name_byte(x: u8) -> bool {
    is_css_letter(x) || (48 <= x <= 57) || x == '_' as u8 || x == '-' as u8
}

/// A byte that opens a plain identifier: an ASCII letter or `_`.
pub open spec fn is_plain_ident_start(x: u8) -> bool {
    is_css_letter(x) || x == '_' as u8
}

/// `rest` opens with a plain ASCII identifier of `k` bytes: it starts with a
/// letter or `_`, goes on with plain name bytes, and ends at the end or at an
/// ASCII byte that neither extends it (no name byte, escape or NUL) nor makes
/// it a function (`(`).
pub open spec fn plain_ascii_ident(rest: Seq<u8>, k: int) -> bool {
    &&& 0 < k <= rest.len()
    &&& is_plain_ident_start(rest[0])
    &&& forall|i: int| 0 <= i < k ==> is_plain_name_byte(#[trigger] rest[i])
    &&& k < rest.len() ==> {
        &&& rest[k] < 0x80
        &&& !is_plain_name_byte(rest[k])
        &&& rest[k] != '\\' as u8
        &&& rest[k] != 0
        &&& rest[k] != '(' as u8
    }
}

/// ASCII bytes as the characters they encode.
pub open spec fn ascii_text(b: Seq<u8>) -> Seq<char> {
    Seq::new(b.len(), |i: int| b[i] as char)
}

/// Relies on cssparser's `Parser::expect_ident` and `Parser::position`: the
/// tokenizer reads the first token of `rest` and yields its text when it is an
/// identifier; the position after it is a character boundary of `rest`, past
/// at least one byte. A plain ASCII identifier (see `plain_ascii_ident`) is
/// read as itself, on the fast path of `consume_name`.
#[verifier::external_body]
fn read_css_ident(rest: &str) -> (r: Option<(String, usize)>)
    ensures
        r matches Some((s, n)) ==> css_ident_token(rest.spec_bytes()) == Some((s@, n as nat)),
        r matches Some((s, n)) ==> 0 < n <= rest.spec_bytes().len(),
        r matches Some((s, n)) ==> is_char_boundary(rest.spec_bytes(), n as int),
        r is None ==> css_ident_token(rest.spec_bytes()) is None,
        match r {
            Some((s, n)) => forall|k: int| #[trigger]
                plain_ascii_ident(rest.spec_bytes(), k) ==> s@ == ascii_text(
                    rest.spec_bytes().subrange(0, k),
                ) && n == k,
            None => forall|k: int| !#[trigger] plain_ascii_ident(rest.spec_bytes(), k),
        },
{
    let mut parser = cssparser::Parser::new(rest);
    let name = match parser.expect_ident() {
        Ok(name) => String::from(name.as_ref()),
        Err(_) => return None,
    };
    Some((name, parser.position().byte_index()))
}

/// The tokenizer reads every plain ASCII identifier at `p` as itself.
pub open spec fn reads_plain_ident_at(b: Seq<u8>, p: int) -> bool {
    forall|k: int|
        #[trigger] plain_ascii_ident(b.subrange(p, b.len() as int), k) ==> css_ident_token(
            b.subrange(p, b.len() as int),
        ) == Some((ascii_text(b.subrange(p, b.len() as int).subrange(0, k)), k as nat))
}

/// The data type name that follows a `<` read just before `p`, and the
/// position after its `>`.
pub open spec fn data_type_at(b: Seq<u8>, p: int) -> Result<(DataType, int), ParseError> {
    match closing_bracket(b, p) {
        None => Err(ParseError::UnclosedDataTypeName),
        Some(j) => match data_type_named(b.subrange(p, j)) {
            None => Err(ParseError::UnknownDataTypeName),
            Some(d) => Ok((d, j + 1)),
        },
    }
}

/// The custom identifier that the tokenizer reads at `p`, and the position
/// after it. The tokenizer reads at least one byte and stays within the
/// input; the bound on `n` records that, so that reading always moves on.
pub open spec fn ident_at(b: Seq<u8>, p: int) -> Result<(Seq<char>, int), ParseError> {
    match css_ident_token(b.subrange(p, b.len() as int)) {
        Some((s, n)) => if 0 < n <= b.len() - p && !is_reserved_keyword(s) {
            Ok((s, p + n))
        } else {
            Err(ParseError::InvalidName)
        },
        None => Err(ParseError::InvalidName),
    }
}

/// The component name that starts at `p`, and the position after it.
pub open spec fn name_at(b: Seq<u8>, p: int) -> Result<(NameModel, int), ParseError> {
    if p < 0 || p >= b.len() {
        Err(ParseError::UnexpectedEOF)
    } else if b[p] == '<' as u8 {
        match data_type_at(b, p + 1) {
            Ok((d, q)) => Ok((NameModel::DataType(d), q)),
            Err(e) => Err(e),
        }
    } else if b[p] != '\\' as u8 && !is_css_name_start(b[p]) {
        Err(ParseError::InvalidNameStart)
    } else {
        match ident_at(b, p) {
            Ok((s, q)) => Ok((NameModel::Ident(s), q)),
            Err(e) => Err(e),
        }
    }
}

/// The multiplier written at `p`, if any.
pub open spec fn multiplier_at(b: Seq<u8>, p: int) -> Option<Multiplier> {
    if 0 <= p < b.len() && b[p] == '+' as u8 {
        Some(Multiplier::Space)
    } else if 0 <= p < b.len() && b[p] == '#' as u8 {
        Some(Multiplier::Comma)
    } else {
        None
    }
}

/// The component that starts at `p` (after whitespace), and the position
/// after it. A pre-multiplied name takes no multiplier.
pub open spec fn component_at(b: Seq<u8>, p: int) -> Result<(ComponentModel, int), ParseError> {
    match name_at(b, skip_ws(b, p)) {
        Err(e) => Err(e),
        Ok((name, q)) => if is_pre_multiplied_name(name) {
            Ok((ComponentModel { name, multiplier: None }, q))
        } else {
            match multiplier_at(b, q) {
                Some(m) => Ok((ComponentModel { name, multiplier: Some(m) }, q + 1)),
                None => Ok((ComponentModel { name, multiplier: None }, q)),
            }
        },
    }
}

proof fn lemma_skip_ws(b: Seq<u8>, p: int)
    requires
        0 <= p <= b.len(),
    ensures
        p <= skip_ws(b, p) <= b.len(),
        forall|k: int| p <= k < skip_ws(b, p) ==> is_css_whitespace(b[k]),
        skip_ws(b, p) < b.len() ==> !is_css_whitespace(b[skip_ws(b, p)]),
    decreases b.len() - p,
{
    if p < b.len() && is_css_whitespace(b[p]) {
        lemma_skip_ws(b, p + 1);
    }
}

pub(crate) proof fn lemma_closing_bracket(b: Seq<u8>, p: int)
    requires
        0 <= p,
    ensures
        closing_bracket(b, p) matches Some(j) ==> p <= j < b.len() && b[j] == '>' as u8,
    decreases b.len() - p,
{
    if 0 <= p < b.len() && b[p] != '>' as u8 {
        lemma_closing_bracket(b, p + 1);
    }
}

/// Reading a component moves past at least one byte and stays in the input.
pub(crate) proof fn lemma_component_advances(b: Seq<u8>, p: int)
    requires
        0 <= p <= b.len(),
    ensures
        component_at(b, p) matches Ok((_, q)) ==> p < q <= b.len(),
{
    lemma_skip_ws(b, p);
    let s = skip_ws(b, p);
    if s < b.len() && b[s] == '<' as u8 {
        lemma_closing_bracket(b, s + 1);
    }
}

#[via_fn]
proof fn components_from_decreases(b: Seq<u8>, p: int, acc: Seq<ComponentModel>) {
    if 0 <= p < b.len() {
        lemma_component_advances(b, p);
        if b[p] == '|' as u8 {
            lemma_component_advances(b, p + 1);
        }
    }
}

/// The components read from `p` to the end, after those in `acc`. A `|`
/// stands only after a first component; whitespace between components is
/// skipped.
pub open spec fn components_from(b: Seq<u8>, p: int, acc: Seq<ComponentModel>) -> Result<
    Seq<ComponentModel>,
    ParseError,
>
    decreases b.len() - p,
    via components_from_decreases
{
    if p < 0 || p >= b.len() {
        if acc.len() == 0 {
            Err(ParseError::UnexpectedEOF)
        } else {
            Ok(acc)
        }
    } else if is_css_whitespace(b[p]) {
        components_from(b, p + 1, acc)
    } else if b[p] == '|' as u8 && acc.len() == 0 {
        Err(ParseError::UnexpectedPipe)
    } else {
        let start = if b[p] == '|' as u8 { p + 1 } else { p };
        match component_at(b, start) {
            Err(e) => Err(e),
            Ok((c, q)) => components_from(b, q, acc.push(c)),
        }
    }
}

#[via_fn]
proof fn components_read_decreases(b: Seq<u8>, p: int, acc: Seq<ComponentModel>) {
    if 0 <= p < b.len() {
        lemma_component_advances(b, p);
        if b[p] == '|' as u8 {
            lemma_component_advances(b, p + 1);
        }
    }
}

/// The components that reading from `p` has gathered, after those in `acc`,
/// when it stops: all of them at the end of the input, else those read before
/// the component that failed.
pub open spec fn components_read(b: Seq<u8>, p: int, acc: Seq<ComponentModel>) -> Seq<
    ComponentModel,
>
    decreases b.len() - p,
    via components_read_decreases
{
    if p < 0 || p >= b.len() {
        acc
    } else if is_css_whitespace(b[p]) {
        components_read(b, p + 1, acc)
    } else if b[p] == '|' as u8 && acc.len() == 0 {
        acc
    } else {
        let start = if b[p] == '|' as u8 { p + 1 } else { p };
        match component_at(b, start) {
            Err(_) => acc,
            Ok((c, q)) => components_read(b, q, acc.push(c)),
        }
    }
}

/// A component as the parser produces it: no multiplier on a pre-multiplied
/// name, and no CSS-wide keyword as a custom identifier.
pub open spec fn parsed_component_wf(c: ComponentModel) -> bool {
    &&& component_wf(c)
    &&& (c.name matches NameModel::Ident(s) ==> !is_reserved_keyword(s))
}

pub(crate) proof fn lemma_component_at_wf(b: Seq<u8>, p: int)
    ensures
        component_at(b, p) matches Ok((c, _)) ==> parsed_component_wf(c),
{
}

/// What a descriptor string denotes, given its UTF-8 bytes: the universal
/// descriptor (no component) for a lone `*`, else its components in order.
pub open spec fn parse_model(b: Seq<u8>) -> Result<Seq<ComponentModel>, ParseError> {
    let t = trim_ascii(b);
    if t.len() == 0 {
        Err(ParseError::EmptyInput)
    } else if t.len() == 1 && t[0] == '*' as u8 {
        Ok(Seq::empty())
    } else {
        components_from(t, 0, Seq::empty())
    }
}

/* Reserved keywords */

proof fn lemma_lower_match_is_letter(c: char, l: char)
    requires
        'a' <= l <= 'z',
        ascii_lower(c) == ascii_lower(l),
    ensures
        'a' <= c <= 'z' || 'A' <= c <= 'Z',
{
}

proof fn lemma_keyword_letters(kw: Seq<char>, s: Seq<char>)
    requires
        forall|i: int| 0 <= i < kw.len() ==> 'a' <= #[trigger] kw[i] <= 'z',
        eq_ignore_ascii_case(s, kw),
    ensures
        forall|i: int| 0 <= i < s.len() ==> ('a' <= #[trigger] s[i] <= 'z' || 'A' <= s[i] <= 'Z'),
        s.len() == kw.len(),
{
    assert forall|i: int| 0 <= i < s.len() implies ('a' <= #[trigger] s[i] <= 'z' || 'A' <= s[i]
        <= 'Z') by {
        lemma_lower_match_is_letter(s[i], kw[i]);
    }
}

/// Bytes that spell a reserved keyword, in any casing, are a plain ASCII
/// identifier of their whole length.
proof fn lemma_keyword_is_plain_ident(t: Seq<u8>)
    requires
        is_reserved_keyword(ascii_text(t)),
    ensures
        plain_ascii_ident(t, t.len() as int),
        t.len() >= 5,
{
    let s = ascii_text(t);
    let kw = if eq_ignore_ascii_case(s, keyword_inherit()) {
        keyword_inherit()
    } else if eq_ignore_ascii_case(s, keyword_reset()) {
        keyword_reset()
    } else if eq_ignore_ascii_case(s, keyword_revert()) {
        keyword_revert()
    } else if eq_ignore_ascii_case(s, keyword_unset()) {
        keyword_unset()
    } else {
        keyword_default()
    };
    assert(forall|i: int| 0 <= i < kw.len() ==> 'a' <= #[trigger] kw[i] <= 'z');
    lemma_keyword_letters(kw, s);
    assert forall|i: int| 0 <= i < t.len() implies is_css_letter(#[trigger] t[i]) by {
        assert(s[i] == t[i] as char);
    }
}

/* Reading a descriptor */

/// Every byte before `i` is ASCII, so `i` is a character boundary.
proof fn lemma_boundary_after_ascii_run(b: Seq<u8>, i: int)
    requires
        valid_utf8(b),
        0 <= i <= b.len(),
        forall|k: int| 0 <= k < i ==> b[k] < 0x80,
    ensures
        is_char_boundary(b, i),
    decreases i,
{
    if i == 0 {
        is_char_boundary_start_end_of_seq(b);
    } else {
        lemma_boundary_after_ascii_run(b, i - 1);
        lemma_boundary_after_ascii(b, i - 1);
    }
}

fn is_whitespace(byte: u8) -> (r: bool)
    ensures
        r == is_css_whitespace(byte),
{
    byte == 9 || byte == 10 || byte == 13 || byte == 32
}

fn is_letter(byte: u8) -> (r: bool)
    ensures
        r == is_css_letter(byte),
{
    (65 <= byte && byte <= 90) || (97 <= byte && byte <= 122)
}

fn is_non_ascii(byte: u8) -> (r: bool)
    ensures
        r == is_css_non_ascii(byte),
{
    byte >= 0x80
}

fn is_name_start(byte: u8) -> (r: bool)
    ensures
        r == is_css_name_start(byte),
{
    is_letter(byte) || is_non_ascii(byte) || byte == '_' as u8
}

/// A cursor over the bytes of a descriptor.
struct Parser<'a> {
    input: &'a str,
    bytes: &'a [u8],
    position: usize,
}

impl<'a> Parser<'a> {
    /// The cursor stands on a character boundary of the input's bytes.
    spec fn wf(&self) -> bool {
        &&& self.bytes@ == self.input.spec_bytes()
        &&& valid_utf8(self.bytes@)
        &&& self.position <= self.bytes@.len() <= usize::MAX
        &&& is_char_boundary(self.bytes@, self.position as int)
    }

    fn new(input: &'a str) -> (r: Self)
        ensures
            r.wf(),
            r.position == 0,
            r.bytes@ == input.spec_bytes(),
    {
        proof {
            encode_utf8_valid_utf8(input@);
            is_char_boundary_start_end_of_seq(input.spec_bytes());
        }
        let bytes = input.as_bytes();
        let _len: usize = bytes.len();
        Parser { input, bytes, position: 0 }
    }

    fn peek(&self) -> (r: Option<u8>)
        requires
            self.wf(),
        ensures
            r == (if self.position < self.bytes@.len() {
                Some(self.bytes@[self.position as int])
            } else {
                None
            }),
    {
        if self.position < self.bytes.len() {
            Some(self.bytes[self.position])
        } else {
            None
        }
    }

    /// Steps over the ASCII byte under the cursor.
    fn advance(&mut self)
        requires
            old(self).wf(),
            old(self).position < old(self).bytes@.len(),
            old(self).bytes@[old(self).position as int] < 0x80,
        ensures
            final(self).wf(),
            final(self).input == old(self).input,
            final(self).bytes@ == old(self).bytes@,
            final(self).position == old(self).position + 1,
    {
        proof {
            lemma_boundary_after_ascii(self.bytes@, self.position as int);
        }
        self.position = self.position + 1;
    }

    fn skip_whitespace(&mut self)
        requires
            old(self).wf(),
        ensures
            final(self).wf(),
            final(self).input == old(self).input,
            final(self).bytes@ == old(self).bytes@,
            final(self).position == skip_ws(old(self).bytes@, old(self).position as int),
    {
        while self.position < self.bytes.len() && is_whitespace(self.bytes[self.position])
            invariant
                self.wf(),
                self.input == old(self).input,
                self.bytes@ == old(self).bytes@,
                skip_ws(self.bytes@, self.position as int) == skip_ws(
                    old(self).bytes@,
                    old(self).position as int,
                ),
            decreases self.bytes@.len() - self.position,
        {
            self.advance();
        }
    }

    /// Reads a data type name up to its `>`; the cursor stands after the `<`.
    fn parse_data_type_name(&mut self) -> (r: Result<DataType, ParseError>)
        requires
            old(self).wf(),
        ensures
            final(self).wf(),
            final(self).input == old(self).input,
            final(self).bytes@ == old(self).bytes@,
            match data_type_at(old(self).bytes@, old(self).position as int) {
                Ok((d, q)) => r == Ok::<DataType, ParseError>(d) && final(self).position == q,
                Err(e) => r == Err::<DataType, ParseError>(e),
            },
    {
        let start = self.position;
        let mut end = start;
        while end < self.bytes.len() && self.bytes[end] != '>' as u8
            invariant
                self.wf(),
                start == self.position,
                start <= end <= self.bytes@.len(),
                closing_bracket(self.bytes@, end as int) == closing_bracket(
                    self.bytes@,
                    start as int,
                ),
            decreases self.bytes@.len() - end,
        {
            end += 1;
        }
        if end == self.bytes.len() {
            return Err(ParseError::UnclosedDataTypeName);
        }
        let ty = match DataType::from_bytes(vstd::slice::slice_subrange(self.bytes, start, end)) {
            Some(ty) => ty,
            None => return Err(ParseError::UnknownDataTypeName),
        };
        proof {
            lemma_boundary_after_ascii(self.bytes@, end as int);
        }
        self.position = end + 1;
        Ok(ty)
    }

    fn parse_name(&mut self) -> (r: Result<ComponentName, ParseError>)
        requires
            old(self).wf(),
        ensures
            final(self).wf(),
            final(self).input == old(self).input,
            final(self).bytes@ == old(self).bytes@,
            match name_at(old(self).bytes@, old(self).position as int) {
                Ok((n, q)) => r matches Ok(x) && x@ == n && final(self).position == q,
                Err(e) => r == Err::<ComponentName, ParseError>(e),
            },
            r is Err && !(old(self).position < old(self).bytes@.len()
                && old(self).bytes@[old(self).position as int] == '<' as u8)
                ==> final(self).position == old(self).position,
            old(self).position < old(self).bytes@.len() && is_plain_ident_start(
                old(self).bytes@[old(self).position as int],
            ) ==> reads_plain_ident_at(old(self).bytes@, old(self).position as int),
    {
        let b = match self.peek() {
            Some(b) => b,
            None => return Err(ParseError::UnexpectedEOF),
        };
        if b == '<' as u8 {
            self.advance();
            return match self.parse_data_type_name() {
                Ok(ty) => Ok(ComponentName::DataType(ty)),
                Err(e) => Err(e),
            };
        }
        if b != '\\' as u8 && !is_name_start(b) {
            return Err(ParseError::InvalidNameStart);
        }
        let (_, rest) = self.input.split_at(self.position);
        let found = read_css_ident(rest);
        proof {
            assert(rest.spec_bytes() =~= self.bytes@.subrange(
                self.position as int,
                self.bytes@.len() as int,
            ));
        }
        let (text, len) = match found {
            Some(found) => found,
            None => return Err(ParseError::InvalidName),
        };
        let name = match DefaultImpl::custom_ident_from_ident(text.as_str()) {
            Some(name) => name,
            None => return Err(ParseError::InvalidName),
        };
        proof {
            lemma_boundary_shift(self.bytes@, self.position as int, len as int);
        }
        self.position = self.position + len;
        Ok(ComponentName::Ident(name))
    }

    fn parse_multiplier(&mut self) -> (r: Option<Multiplier>)
        requires
            old(self).wf(),
        ensures
            final(self).wf(),
            final(self).input == old(self).input,
            final(self).bytes@ == old(self).bytes@,
            r == multiplier_at(old(self).bytes@, old(self).position as int),
            final(self).position == old(self).position + if r is Some { 1int } else { 0int },
    {
        let multiplier = match self.peek() {
            Some(b) => if b == '+' as u8 {
                Multiplier::Space
            } else if b == '#' as u8 {
                Multiplier::Comma
            } else {
                return None;
            },
            None => return None,
        };
        self.advance();
        Some(multiplier)
    }

    fn parse_component(&mut self) -> (r: Result<Component, ParseError>)
        requires
            old(self).wf(),
        ensures
            final(self).wf(),
            final(self).input == old(self).input,
            final(self).bytes@ == old(self).bytes@,
            match component_at(old(self).bytes@, old(self).position as int) {
                Ok((c, q)) => r matches Ok(x) && x@ == c && final(self).position == q,
                Err(e) => r == Err::<Component, ParseError>(e),
            },
            ({
                let p = skip_ws(old(self).bytes@, old(self).position as int);
                p < old(self).bytes@.len() && is_plain_ident_start(old(self).bytes@[p])
                    ==> reads_plain_ident_at(old(self).bytes@, p)
            }),
    {
        self.skip_whitespace();
        let name = match self.parse_name() {
            Ok(name) => name,
            Err(e) => return Err(e),
        };
        let multiplier = if name.is_pre_multiplied() {
            None
        } else {
            self.parse_multiplier()
        };
        Ok(Component::new(name, multiplier))
    }

    /// Reads components up to the end of the input, after those already in
    /// `output`.
    fn parse(&mut self, output: &mut Vec<Component>) -> (r: Result<(), ParseError>)
        requires
            old(self).wf(),
        ensures
            match components_from(
                old(self).bytes@,
                old(self).position as int,
                component_views(old(output)@),
            ) {
                Ok(s) => r is Ok && component_views(final(output)@) == s,
                Err(e) => r == Err::<(), ParseError>(e),
            },
            component_views(final(output)@) == components_read(
                old(self).bytes@,
                old(self).position as int,
                component_views(old(output)@),
            ),
            old(output)@.len() <= final(output)@.len(),
            final(output)@.subrange(0, old(output)@.len() as int) == old(output)@,
            forall|i: int|
                old(output)@.len() <= i < final(output)@.len() ==> parsed_component_wf(
                    #[trigger] final(output)@[i]@,
                ),
            final(self).wf(),
            final(self).bytes@ == old(self).bytes@,
            final(self).position <= final(self).bytes@.len(),
            r is Ok ==> final(self).position == final(self).bytes@.len(),
            old(self).position < old(self).bytes@.len() && is_plain_ident_start(
                old(self).bytes@[old(self).position as int],
            ) ==> reads_plain_ident_at(old(self).bytes@, old(self).position as int),
    {
        let ghost b = self.bytes@;
        let ghost target = components_from(b, self.position as int, component_views(output@));
        loop
            invariant
                self.wf(),
                self.bytes@ == b,
                b == old(self).bytes@,
                target == components_from(
                    b,
                    old(self).position as int,
                    component_views(old(output)@),
                ),
                components_from(b, self.position as int, component_views(output@)) == target,
                components_read(b, self.position as int, component_views(output@))
                    == components_read(
                    b,
                    old(self).position as int,
                    component_views(old(output)@),
                ),
                old(output)@.len() <= output@.len(),
                output@.subrange(0, old(output)@.len() as int) == old(output)@,
                forall|i: int|
                    old(output)@.len() <= i < output@.len() ==> parsed_component_wf(
                        #[trigger] output@[i]@,
                    ),
                self.position != old(self).position && old(self).position < b.len()
                    && is_plain_ident_start(b[old(self).position as int]) ==> reads_plain_ident_at(
                    b,
                    old(self).position as int,
                ),
            decreases b.len() - self.position,
        {
            let byte = match self.peek() {
                None => {
                    assert(component_views(output@).len() == output@.len());
                    if output.len() == 0 {
                        return Err(ParseError::UnexpectedEOF);
                    }
                    return Ok(());
                },
                Some(byte) => byte,
            };
            if is_whitespace(byte) {
                self.advance();
                continue;
            }
            if byte == '|' as u8 {
                if output.len() == 0 {
                    return Err(ParseError::UnexpectedPipe);
                }
                self.advance();
            }
            let ghost start = self.position as int;
            proof {
                lemma_component_advances(b, start);
                lemma_component_at_wf(b, start);
            }
            let component = match self.parse_component() {
                Ok(component) => component,
                Err(e) => return Err(e),
            };
            let ghost before = output@;
            output.push(component);
            proof {
                assert(component_views(output@) =~= component_views(before).push(component@));
                assert(output@.subrange(0, old(output)@.len() as int) =~= before.subrange(
                    0,
                    old(output)@.len() as int,
                ));
            }
        }
    }
}

/// Parses a syntax descriptor: a lone `*` (the universal descriptor) or
/// components separated by `|`, each a custom identifier or a data type name
/// between `<` and `>`, followed by an optional `+` or `#`.
pub fn parse_descriptor(input: &str) -> (r: Result<Descriptor, ParseError>)
    ensures
        match parse_model(input.spec_bytes()) {
            Ok(s) => r matches Ok(d) && d@ == s,
            Err(e) => r == Err::<Descriptor, ParseError>(e),
        },
        is_reserved_keyword(ascii_text(trim_ascii(input.spec_bytes()))) ==> r == Err::<
            Descriptor,
            ParseError,
        >(ParseError::InvalidName),
{
    let bytes = input.as_bytes();
    let (start, end) = trim_bounds(bytes);
    proof {
        assert(trim_ascii(bytes@) =~= bytes@.subrange(start as int, end as int));
    }
    if start == end {
        return Err(ParseError::EmptyInput);
    }
    if end - start == 1 && bytes[start] == '*' as u8 {
        return Ok(Descriptor::universal());
    }
    proof {
        let b = bytes@;
        encode_utf8_valid_utf8(input@);
        lemma_trimmed_start_bounds(b, 0);
        lemma_trimmed_end_bounds(b, start as int, b.len() as int);
        lemma_boundary_after_ascii_run(b, start as int);
        if end < b.len() {
            lemma_boundary_at_ascii(b, end as int);
        } else {
            is_char_boundary_start_end_of_seq(b);
        }
        let head = b.subrange(0, end as int);
        valid_utf8_split(b, end as int);
        is_char_boundary_iff_not_is_continuation_byte(head, start as int);
        is_char_boundary_iff_not_is_continuation_byte(b, start as int);
    }
    let (head, _) = input.split_at(end);
    let (_, trimmed) = head.split_at(start);
    proof {
        assert(trimmed.spec_bytes() =~= trim_ascii(bytes@));
    }
    let mut components: Vec<Component> = Vec::new();
    let mut parser = Parser::new(trimmed);
    proof {
        assert(component_views(components@) =~= Seq::<ComponentModel>::empty());
    }
    let read = parser.parse(&mut components);
    proof {
        let t = trim_ascii(bytes@);
        if is_reserved_keyword(ascii_text(t)) {
            lemma_keyword_is_plain_ident(t);
            assert(t.subrange(0, t.len() as int) =~= t);
            assert(t.subrange(0, t.len() as int).subrange(0, t.len() as int) =~= t);
            assert(skip_ws(t, 0) == 0);
            assert(name_at(t, 0) == Err::<(NameModel, int), ParseError>(ParseError::InvalidName));
        }
    }
    match read {
        Ok(()) => {},
        Err(e) => return Err(e),
    }
    Ok(Descriptor::from_components(components))
}

} // verus!
