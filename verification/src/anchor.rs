//! Anchor positioning: `anchor-name` and `anchor-scope`, lists of dashed
//! identifiers.

use crate::cursor::{ident_at, try_ident, Cursor};
use crate::error::ParseFailure;
use crate::token::{matches_ignore_ascii_case, Token};
use smallvec::SmallVec;
use style_traits::arc_slice::ArcSlice;
use vstd::prelude::*;

verus! {

/// A custom identifier that begins with two hyphens.
#[derive(Debug, PartialEq, Eq, Hash)]
pub struct DashedIdent {
    name: String,
}

/// `style_traits::arc_slice::ArcSlice`, a shared slice: a value that is
/// carried, never looked into.
#[verifier::external_type_specification]
#[verifier::external_body]
#[verifier::reject_recursive_types(T)]
pub struct ExArcSlice<T>(ArcSlice<T>);

/// The identifiers read so far, in a `SmallVec` that keeps the first four
/// without allocating.
#[verifier::external_body]
pub struct IdentBuffer {
    items: SmallVec<[DashedIdent; 4]>,
}

/// The names of the identifiers that a shared slice holds, in order.
pub uninterp spec fn slice_names(slice: &ArcSlice<DashedIdent>) -> Seq<Seq<char>>;

/// The names of the identifiers that a buffer holds, in order.
pub uninterp spec fn buffer_names(buffer: &IdentBuffer) -> Seq<Seq<char>>;

/// `SmallVec::new`: a buffer that holds nothing.
#[verifier::external_body]
fn buffer_new() -> (r: IdentBuffer)
    ensures
        buffer_names(&r) == Seq::<Seq<char>>::empty(),
{
    IdentBuffer { items: SmallVec::new() }
}

/// `SmallVec::push`: the item is added after the ones that the buffer holds.
#[verifier::external_body]
fn buffer_push(buffer: &mut IdentBuffer, item: DashedIdent)
    ensures
        buffer_names(final(buffer)) == buffer_names(old(buffer)).push(item.name@),
{
    buffer.items.push(item)
}

/// `ArcSlice::from_iter` on `SmallVec::drain` of the whole buffer: the items
/// leave the buffer and stand in the slice in the same order.
#[verifier::external_body]
fn slice_from_buffer(buffer: &mut IdentBuffer) -> (r: ArcSlice<DashedIdent>)
    ensures
        slice_names(&r) == buffer_names(old(buffer)),
        buffer_names(final(buffer)) == Seq::<Seq<char>>::empty(),
{
    ArcSlice::from_iter(buffer.items.drain(..))
}

/// `ArcSlice::default`: a slice that holds nothing.
#[verifier::external_body]
fn slice_empty() -> (r: ArcSlice<DashedIdent>)
    ensures
        slice_names(&r) == Seq::<Seq<char>>::empty(),
{
    ArcSlice::default()
}

/// The length of the slice that an `ArcSlice` dereferences to: the number of
/// items that it holds.
#[verifier::external_body]
fn slice_len(slice: &ArcSlice<DashedIdent>) -> (r: usize)
    ensures
        r == slice_names(slice).len(),
{
    slice.len()
}

/// Indexing the slice that an `ArcSlice` dereferences to: the item at the
/// given place.
#[verifier::external_body]
fn slice_get(slice: &ArcSlice<DashedIdent>, index: usize) -> (r: &DashedIdent)
    requires
        index < slice_names(slice).len(),
    ensures
        r.name@ == slice_names(slice)[index as int],
{
    &slice[index]
}

/// The text that `cssparser::serialize_identifier` writes for an identifier
/// of the given name: the name with the characters escaped that would not
/// read back as part of an identifier.
pub uninterp spec fn identifier_text(name: Seq<char>) -> Seq<char>;

/// `cssparser::serialize_identifier`, written into a new string.
#[verifier::external_body]
fn serialize_identifier(name: &str) -> (r: String)
    ensures
        r@ == identifier_text(name@),
{
    let mut dest = String::new();
    let _ = cssparser::serialize_identifier(name, &mut dest);
    dest
}

/// Whether the name begins with two hyphens.
pub open spec fn dashed(name: Seq<char>) -> bool {
    name.len() >= 2 && name[0] == '-' && name[1] == '-'
}

impl DashedIdent {
    /// The name of the identifier, hyphens included.
    pub closed spec fn name(&self) -> Seq<char> {
        self.name@
    }

    /// The identifier of the given name; a name that does not begin with two
    /// hyphens is refused.
    pub fn from_ident(ident: &str) -> (r: Result<DashedIdent, ParseFailure>)
        ensures
            match r {
                Ok(dashed_ident) => dashed(ident@) && dashed_ident.name() == ident@,
                Err(failure) => !dashed(ident@) && failure == ParseFailure::Grammar,
            },
    {
        if ident.unicode_len() >= 2 && ident.get_char(0) == '-' && ident.get_char(1) == '-' {
            Ok(DashedIdent { name: ident.to_owned() })
        } else {
            Err(ParseFailure::Grammar)
        }
    }

    /// The name of the identifier, hyphens included.
    pub fn as_str(&self) -> (r: &str)
        ensures
            r@ == self.name(),
    {
        self.name.as_str()
    }

    /// Writes the identifier, escaped where it has to be.
    pub fn to_css(&self) -> (r: String)
        ensures
            r@ == identifier_text(self.name()),
    {
        serialize_identifier(self.name.as_str())
    }
}

/// The name of the dashed identifier at index `at` of the tokens, if one
/// stands there.
pub open spec fn dashed_ident_at(tokens: Seq<Token>, at: int) -> Option<Seq<char>> {
    if 0 <= at < tokens.len() {
        match tokens[at] {
            Token::Ident(s) => if dashed(s@) {
                Some(s@)
            } else {
                None
            },
            _ => None,
        }
    } else {
        None
    }
}

/// Whether a comma stands at index `at` of the tokens.
pub open spec fn comma_at(tokens: Seq<Token>, at: int) -> bool {
    0 <= at < tokens.len() && tokens[at] is Comma
}

/// The names of the list `<dashed-ident>#` that starts at index `at`, and
/// the index after it: dashed identifiers with commas between them, as far as
/// commas go on. A comma without a dashed identifier after it is no list.
pub open spec fn dashed_list_at(tokens: Seq<Token>, at: int) -> Option<(Seq<Seq<char>>, int)>
    decreases tokens.len() - at,
{
    match dashed_ident_at(tokens, at) {
        None => None,
        Some(name) => if comma_at(tokens, at + 1) {
            match dashed_list_at(tokens, at + 2) {
                Some((rest, next)) => Some((seq![name] + rest, next)),
                None => None,
            }
        } else {
            Some((seq![name], at + 1))
        },
    }
}

/// What is left of the list `<dashed-ident>#` after one of its items, at
/// index `at`: the items after a comma, or nothing.
pub open spec fn dashed_list_rest(tokens: Seq<Token>, at: int) -> Option<(Seq<Seq<char>>, int)> {
    if comma_at(tokens, at) {
        dashed_list_at(tokens, at + 1)
    } else {
        Some((Seq::empty(), at))
    }
}

/// Consumes a dashed identifier where one stands at the cursor.
pub fn try_dashed_ident(input: &mut Cursor) -> (r: Option<DashedIdent>)
    requires
        old(input).wf(),
    ensures
        final(input).wf(),
        final(input).tokens() == old(input).tokens(),
        match dashed_ident_at(old(input).tokens(), old(input).position() as int) {
            Some(name) => {
                &&& r is Some
                &&& r->0.name() == name
                &&& final(input).position() == old(input).position() + 1
            },
            None => r is None && final(input).position() == old(input).position(),
        },
{
    let start = input.mark();
    match input.next() {
        Some(Token::Ident(s)) => match DashedIdent::from_ident(s.as_str()) {
            Ok(ident) => Some(ident),
            Err(_) => {
                input.reset(start);
                None
            },
        },
        Some(_) => {
            input.reset(start);
            None
        },
        None => None,
    }
}

/// Consumes a comma where one stands at the cursor.
pub fn try_comma(input: &mut Cursor) -> (r: bool)
    requires
        old(input).wf(),
    ensures
        final(input).wf(),
        final(input).tokens() == old(input).tokens(),
        r == comma_at(old(input).tokens(), old(input).position() as int),
        final(input).position() == old(input).position() + if r {
            1nat
        } else {
            0nat
        },
{
    let start = input.mark();
    match input.next() {
        Some(Token::Comma) => true,
        Some(_) => {
            input.reset(start);
            false
        },
        None => false,
    }
}

/// Parses the list `<dashed-ident>#` into a shared slice. Where no list
/// stands at the cursor, nothing is consumed.
pub fn parse_dashed_list(input: &mut Cursor) -> (r: Result<ArcSlice<DashedIdent>, ParseFailure>)
    requires
        old(input).wf(),
    ensures
        final(input).wf(),
        final(input).tokens() == old(input).tokens(),
        match dashed_list_at(old(input).tokens(), old(input).position() as int) {
            Some((names, next)) => {
                &&& r is Ok
                &&& slice_names(&r->Ok_0) == names
                &&& final(input).position() == next
            },
            None => {
                &&& r is Err
                &&& r->Err_0 == ParseFailure::Grammar
                &&& final(input).position() == old(input).position()
            },
        },
{
    let start = input.mark();
    let ghost tokens = input.tokens();
    let first = match try_dashed_ident(input) {
        Some(first) => first,
        None => {
            return Err(ParseFailure::Grammar);
        },
    };
    // The common case is probably just to have a single name, so space for
    // four without allocating should be plenty.
    let mut idents = buffer_new();
    buffer_push(&mut idents, first);
    proof {
        let name = dashed_ident_at(tokens, start as int)->0;
        assert(buffer_names(&idents) =~= seq![name]);
        match dashed_list_rest(tokens, start + 1) {
            Some((rest, next)) => {
                assert(seq![name] + rest =~= buffer_names(&idents) + rest);
            },
            None => {},
        }
    }
    loop
        invariant
            input.wf(),
            input.tokens() == tokens,
            tokens == old(input).tokens(),
            start == old(input).position(),
            start < input.position() <= tokens.len(),
            dashed_list_at(tokens, start as int) == match dashed_list_rest(
                tokens,
                input.position() as int,
            ) {
                Some((rest, next)) => Some((buffer_names(&idents) + rest, next)),
                None => None,
            },
        ensures
            input.wf(),
            input.tokens() == tokens,
            dashed_list_at(tokens, start as int) == Some(
                (buffer_names(&idents), input.position() as int),
            ),
        decreases tokens.len() - input.position(),
    {
        let ghost at = input.position() as int;
        let ghost done = buffer_names(&idents);
        if !try_comma(input) {
            proof {
                assert(done + Seq::<Seq<char>>::empty() =~= done);
            }
            break ;
        }
        match try_dashed_ident(input) {
            Some(ident) => {
                proof {
                    let name = ident.name();
                    match dashed_list_rest(tokens, at + 2) {
                        Some((rest, next)) => {
                            assert(done + (seq![name] + rest) =~= done.push(name) + rest);
                        },
                        None => {},
                    }
                }
                buffer_push(&mut idents, ident);
            },
            None => {
                input.reset(start);
                return Err(ParseFailure::Grammar);
            },
        }
    }
    Ok(slice_from_buffer(&mut idents))
}

/// The text of a list of identifiers: each as `serialize_identifier` writes
/// it, with a comma and a space between two of them.
pub open spec fn comma_list_text(names: Seq<Seq<char>>) -> Seq<char>
    decreases names.len(),
{
    if names.len() == 0 {
        Seq::empty()
    } else if names.len() == 1 {
        identifier_text(names[0])
    } else {
        comma_list_text(names.drop_last()) + ", "@ + identifier_text(names.last())
    }
}

/// Writes the identifiers of a shared slice with a comma and a space between
/// two of them.
pub fn comma_list_to_css(slice: &ArcSlice<DashedIdent>) -> (r: String)
    ensures
        r@ == comma_list_text(slice_names(slice)),
{
    let mut dest = String::new();
    let len = slice_len(slice);
    let ghost names = slice_names(slice);
    let mut i: usize = 0;
    proof {
        assert(names.take(0) =~= Seq::<Seq<char>>::empty());
    }
    while i < len
        invariant
            i <= len,
            len == names.len(),
            names == slice_names(slice),
            dest@ == comma_list_text(names.take(i as int)),
        decreases len - i,
    {
        if i > 0 {
            dest.append(", ");
        }
        let ident = slice_get(slice, i);
        dest.append(ident.to_css().as_str());
        proof {
            assert(names.take(i + 1).drop_last() =~= names.take(i as int));
            assert(dest@ =~= comma_list_text(names.take(i + 1)));
        }
        i = i + 1;
    }
    proof {
        assert(names.take(len as int) =~= names);
    }
    dest
}

/// The value of `anchor-name`: dashed identifiers, or none.
#[derive(Debug, PartialEq, Eq, Hash)]
pub struct AnchorName(pub ArcSlice<DashedIdent>);

/// The names of the `anchor-name` value that starts at index `at`, and the
/// index after it: `none`, which has no name, or the list `<dashed-ident>#`.
pub open spec fn anchor_name_at(tokens: Seq<Token>, at: int) -> Option<(Seq<Seq<char>>, int)> {
    if ident_at(tokens, at, "none"@) {
        Some((Seq::empty(), at + 1))
    } else {
        dashed_list_at(tokens, at)
    }
}

impl AnchorName {
    /// The names of the value, in order; `none` has no name.
    pub open spec fn names(&self) -> Seq<Seq<char>> {
        slice_names(&self.0)
    }

    /// The canonical text of the value: `none`, or the names with a comma
    /// and a space between two of them.
    pub open spec fn text(&self) -> Seq<char> {
        if self.names().len() == 0 {
            "none"@
        } else {
            comma_list_text(self.names())
        }
    }

    /// Return the `none` value.
    pub fn none() -> (r: Self)
        ensures
            r.names() == Seq::<Seq<char>>::empty(),
    {
        AnchorName(slice_empty())
    }

    /// Returns whether this is the `none` value.
    pub fn is_none(&self) -> (r: bool)
        ensures
            r == (self.names().len() == 0),
    {
        slice_len(&self.0) == 0
    }

    /// The number of names.
    pub fn len(&self) -> (r: usize)
        ensures
            r == self.names().len(),
    {
        slice_len(&self.0)
    }

    /// The name at the given place.
    pub fn get(&self, index: usize) -> (r: &DashedIdent)
        requires
            index < self.names().len(),
        ensures
            r.name() == self.names()[index as int],
    {
        slice_get(&self.0, index)
    }

    /// Parses an `anchor-name` value. A failure consumes nothing.
    pub fn parse(input: &mut Cursor) -> (r: Result<Self, ParseFailure>)
        requires
            old(input).wf(),
        ensures
            final(input).wf(),
            final(input).tokens() == old(input).tokens(),
            match anchor_name_at(old(input).tokens(), old(input).position() as int) {
                Some((names, next)) => {
                    &&& r is Ok
                    &&& r->Ok_0.names() == names
                    &&& final(input).position() == next
                },
                None => {
                    &&& r is Err
                    &&& r->Err_0 == ParseFailure::Grammar
                    &&& final(input).position() == old(input).position()
                },
            },
    {
        if try_ident(input, "none") {
            return Ok(Self::none());
        }
        match parse_dashed_list(input) {
            Ok(idents) => Ok(AnchorName(idents)),
            Err(failure) => Err(failure),
        }
    }

    /// Writes the value in its canonical form.
    pub fn to_css(&self) -> (r: String)
        ensures
            r@ == self.text(),
    {
        if self.is_none() {
            return "none".to_owned();
        }
        comma_list_to_css(&self.0)
    }
}

/// The value of `anchor-scope`.
#[derive(Debug, PartialEq, Eq, Hash)]
pub enum AnchorScope {
    /// `none`
    NoScope,
    /// `all`
    All,
    /// `<dashed-ident>#`
    Idents(ArcSlice<DashedIdent>),
}

/// An `anchor-scope` value with its identifiers by their names.
pub enum AnchorScopeView {
    /// `none`
    NoScope,
    /// `all`
    All,
    /// `<dashed-ident>#`
    Idents(Seq<Seq<char>>),
}

impl View for AnchorScope {
    type V = AnchorScopeView;

    open spec fn view(&self) -> AnchorScopeView {
        match self {
            AnchorScope::NoScope => AnchorScopeView::NoScope,
            AnchorScope::All => AnchorScopeView::All,
            AnchorScope::Idents(idents) => AnchorScopeView::Idents(slice_names(idents)),
        }
    }
}

/// The `anchor-scope` value that starts at index `at`, and the index after
/// it: `none`, `all`, or the list `<dashed-ident>#`.
pub open spec fn anchor_scope_at(tokens: Seq<Token>, at: int) -> Option<(AnchorScopeView, int)> {
    if ident_at(tokens, at, "none"@) {
        Some((AnchorScopeView::NoScope, at + 1))
    } else if ident_at(tokens, at, "all"@) {
        Some((AnchorScopeView::All, at + 1))
    } else {
        match dashed_list_at(tokens, at) {
            Some((names, next)) => Some((AnchorScopeView::Idents(names), next)),
            None => None,
        }
    }
}

impl AnchorScopeView {
    /// The canonical text of the value.
    pub open spec fn text(self) -> Seq<char> {
        match self {
            AnchorScopeView::NoScope => "none"@,
            AnchorScopeView::All => "all"@,
            AnchorScopeView::Idents(names) => comma_list_text(names),
        }
    }
}

impl AnchorScope {
    /// Return the `none` value.
    pub fn none() -> (r: Self)
        ensures
            r@ == AnchorScopeView::NoScope,
    {
        Self::NoScope
    }

    /// Returns whether this is the `none` value.
    pub fn is_none(&self) -> (r: bool)
        ensures
            r == (self@ == AnchorScopeView::NoScope),
    {
        match self {
            AnchorScope::NoScope => true,
            _ => false,
        }
    }

    /// Parses an `anchor-scope` value. A failure consumes nothing.
    pub fn parse(input: &mut Cursor) -> (r: Result<Self, ParseFailure>)
        requires
            old(input).wf(),
        ensures
            final(input).wf(),
            final(input).tokens() == old(input).tokens(),
            match anchor_scope_at(old(input).tokens(), old(input).position() as int) {
                Some((scope, next)) => {
                    &&& r is Ok
                    &&& r->Ok_0@ == scope
                    &&& final(input).position() == next
                },
                None => {
                    &&& r is Err
                    &&& r->Err_0 == ParseFailure::Grammar
                    &&& final(input).position() == old(input).position()
                },
            },
    {
        if try_ident(input, "none") {
            return Ok(Self::NoScope);
        }
        if try_ident(input, "all") {
            return Ok(Self::All);
        }
        match parse_dashed_list(input) {
            Ok(idents) => Ok(AnchorScope::Idents(idents)),
            Err(failure) => Err(failure),
        }
    }

    /// Writes the value in its canonical form.
    pub fn to_css(&self) -> (r: String)
        ensures
            r@ == self@.text(),
    {
        match self {
            AnchorScope::NoScope => "none".to_owned(),
            AnchorScope::All => "all".to_owned(),
            AnchorScope::Idents(idents) => comma_list_to_css(idents),
        }
    }
}


/// Whether the tokens are the list of names as `to_css` writes it: the
/// dashed identifiers with a comma between two of them, and nothing after
/// the last.
pub open spec fn list_written_as(names: Seq<Seq<char>>, tokens: Seq<Token>) -> bool {
    &&& names.len() >= 1
    &&& tokens.len() == 2 * names.len() - 1
    &&& forall|i: int|
        0 <= i < names.len() ==> {
            &&& dashed_ident_at(tokens, 2 * i) == Some(#[trigger] names[i])
            &&& i < names.len() - 1 ==> comma_at(tokens, 2 * i + 1)
        }
}

/// The part of a written list from its item `i` on reads back as the names
/// from `i` on.
pub proof fn lemma_dashed_list_reads_back_from(
    names: Seq<Seq<char>>,
    tokens: Seq<Token>,
    i: int,
)
    requires
        list_written_as(names, tokens),
        0 <= i < names.len(),
    ensures
        dashed_list_at(tokens, 2 * i) == Some((names.skip(i), tokens.len() as int)),
    decreases names.len() - i,
{
    let name = names[i];
    if i == names.len() - 1 {
        assert(names.skip(i) =~= seq![name]);
    } else {
        lemma_dashed_list_reads_back_from(names, tokens, i + 1);
        assert(names.skip(i) =~= seq![name] + names.skip(i + 1));
    }
}

/// A dashed identifier is neither `none` nor `all`.
pub proof fn lemma_dashed_is_no_keyword(name: Seq<char>)
    requires
        dashed(name),
    ensures
        !matches_ignore_ascii_case(name, "none"@),
        !matches_ignore_ascii_case(name, "all"@),
{
    reveal_strlit("none");
    reveal_strlit("all");
    let first = name[0];
    assert("none"@[0] == 'n');
    assert("all"@[0] == 'a');
}

/// Parsing undoes serialization: the names of an `anchor-name` value,
/// written out with commas between them, parse back to the same names and
/// leave no token over; and so do the names of an `anchor-scope` value.
pub proof fn lemma_anchor_names_read_back(names: Seq<Seq<char>>, tokens: Seq<Token>)
    requires
        list_written_as(names, tokens),
    ensures
        anchor_name_at(tokens, 0) == Some((names, tokens.len() as int)),
        anchor_scope_at(tokens, 0) == Some((AnchorScopeView::Idents(names), tokens.len() as int)),
{
    lemma_dashed_list_reads_back_from(names, tokens, 0);
    assert(names.skip(0) =~= names);
    let first = names[0];
    lemma_dashed_is_no_keyword(first);
}

} // verus!
