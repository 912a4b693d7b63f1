//! Output descriptors and the addresses of their children.
//!
//! A descriptor is modelled by the text it was parsed from: whether the text
//! parses, whether it is ranged, and which address it yields at an index are
//! all functions of that text. The parsing and the key derivation themselves
//! are done by `miniscript` and `bitcoin`; what this module takes on trust
//! about them is written on the items marked `external_body` below.

use vstd::prelude::*;
use vstd::std_specs::iter::IteratorSpec;
use bitcoin::secp256k1::{Secp256k1, VerifyOnly};
use bitcoin::Network;
use miniscript::{DescriptorPublicKey, DescriptorTrait};
use std::str::FromStr;
use crate::error::SearchError;

verus! {

/// `miniscript::Error`, what parsing hands back on malformed text.
#[verifier::external_type_specification]
#[verifier::external_body]
pub struct ExMiniscriptError(miniscript::Error);

/// What `miniscript` made of a descriptor's text, with the curve context that
/// deriving its children needs.
///
/// `miniscript::Descriptor` and `secp256k1::Secp256k1` are generic types
/// bound by traits of their crates, which the verifier does not take as
/// declared types; the two values are therefore kept behind this struct,
/// whose fields the verifier does not read.
#[verifier::external_body]
struct ParsedDescriptor {
    descriptor: miniscript::Descriptor<DescriptorPublicKey>,
    secp: Secp256k1<VerifyOnly>,
}

/// Indices at or above this bound have no child key: the derivation path
/// keeps the top bit of an index for hardened steps.
pub const INDEX_LIMIT: u32 = 0x8000_0000;

/// The deepest script tree that a taproot output can commit to. A deeper
/// tree has no address, and `miniscript` does not turn it away when it
/// parses, so descriptor text is held to this bound before it is parsed.
pub const MAX_TREE_DEPTH: usize = 128;

/// The number of braces that `text` has opened and not closed again. A
/// closing brace with none open counts for nothing.
pub open spec fn brace_level(text: Seq<char>) -> nat
    decreases text.len(),
{
    if text.len() == 0 {
        0
    } else {
        let before = brace_level(text.drop_last());
        if text.last() == '{' {
            before + 1
        } else if text.last() == '}' && before > 0 {
            (before - 1) as nat
        } else {
            before
        }
    }
}

/// The deepest nesting of braces that `text` reaches: the largest brace
/// level of any of its prefixes. Script trees are written with braces, so
/// no script tree in `text` is deeper than this.
pub open spec fn brace_depth(text: Seq<char>) -> nat
    decreases text.len(),
{
    if text.len() == 0 {
        0
    } else {
        let before = brace_depth(text.drop_last());
        if brace_level(text) > before {
            brace_level(text)
        } else {
            before
        }
    }
}

/// Whether `text` is a descriptor that this library takes: one that keeps to
/// the depth bound and that `miniscript` parses.
pub open spec fn well_formed(text: Seq<char>) -> bool {
    brace_depth(text) <= MAX_TREE_DEPTH && descriptor_parses(text)
}

/// Whether `text` is accepted by `miniscript`'s descriptor parser.
pub uninterp spec fn descriptor_parses(text: Seq<char>) -> bool;

/// Whether the descriptor written as `text` holds a wildcard.
pub uninterp spec fn descriptor_is_ranged(text: Seq<char>) -> bool;

/// The mainnet address of child `index` of the descriptor written as `text`,
/// or `None` where that child has no address.
pub uninterp spec fn derived_address(text: Seq<char>, index: u32) -> Option<Seq<char>>;

/// The address of a descriptor at an index of the unbounded index space:
/// indices outside `0..INDEX_LIMIT` have none.
pub open spec fn address_at(text: Seq<char>, index: int) -> Option<Seq<char>> {
    if 0 <= index < INDEX_LIMIT {
        derived_address(text, index as u32)
    } else {
        None
    }
}

/// A parsed descriptor together with the text it was parsed from.
///
/// The fields are private and parsing is the only way to make one, so
/// `parsed` is always what `text` parses to, and the text keeps to the depth
/// bound.
pub struct OutputDescriptor {
    text: String,
    parsed: ParsedDescriptor,
}

impl OutputDescriptor {
    #[verifier::type_invariant]
    spec fn within_depth(self) -> bool {
        brace_depth(self.text@) <= MAX_TREE_DEPTH
    }
}

impl View for OutputDescriptor {
    type V = Seq<char>;

    closed spec fn view(&self) -> Seq<char> {
        self.text@
    }
}

/// Calls `Descriptor::<DescriptorPublicKey>::from_str` on `text` and, on
/// success, keeps the parsed value beside a copy of the text and a fresh
/// verification-only curve context (`Secp256k1::verification_only`).
///
/// Taken on trust: parsing succeeds exactly on the texts for which
/// `descriptor_parses` holds, and the value built has `text` as its view.
/// Text beyond the depth bound is kept away from the parser, since what it
/// would build of such text makes the calls below panic.
#[verifier::external_body]
fn parse_text(text: &str) -> (r: Result<OutputDescriptor, miniscript::Error>)
    requires
        brace_depth(text@) <= MAX_TREE_DEPTH,
    ensures
        r is Ok <==> descriptor_parses(text@),
        r matches Ok(d) ==> d@ == text@,
{
    let descriptor = miniscript::Descriptor::<DescriptorPublicKey>::from_str(text)?;
    let parsed = ParsedDescriptor { descriptor, secp: Secp256k1::verification_only() };
    Ok(OutputDescriptor { text: text.to_string(), parsed })
}

/// Calls `Descriptor::is_deriveable`.
///
/// Taken on trust: the answer depends on the descriptor's text alone. The
/// call walks the script tree with a depth counter of eight bits, which the
/// depth bound keeps from overflowing.
#[verifier::external_body]
fn has_wildcard(descriptor: &OutputDescriptor) -> (r: bool)
    requires
        brace_depth(descriptor@) <= MAX_TREE_DEPTH,
    ensures
        r == descriptor_is_ranged(descriptor@),
{
    descriptor.parsed.descriptor.is_deriveable()
}

/// Calls `Descriptor::derived_descriptor` at `index`, then
/// `DescriptorTrait::address` for `Network::Bitcoin`, and renders the address
/// with `to_string`. Either call may refuse (a hardened step in the path, a
/// descriptor without an address); both refusals become `None`.
///
/// Taken on trust: the outcome depends on the descriptor's text and the index
/// alone. `derived_descriptor` panics on an index of 2^31 or more, and
/// `address` panics on a script tree deeper than 128, hence the two bounds.
/// One more panic guards key arithmetic that fails with negligible
/// probability and for which no input is known.
#[verifier::external_body]
fn derive_address_text(descriptor: &OutputDescriptor, index: u32) -> (r: Option<String>)
    requires
        index < INDEX_LIMIT,
        brace_depth(descriptor@) <= MAX_TREE_DEPTH,
    ensures
        r is Some <==> derived_address(descriptor@, index) is Some,
        r matches Some(a) ==> derived_address(descriptor@, index) == Some(a@),
{
    let parsed = &descriptor.parsed;
    let child = parsed.descriptor.derived_descriptor(&parsed.secp, index).ok()?;
    let address = child.address(Network::Bitcoin).ok()?;
    Some(address.to_string())
}

/// Renders the parser's complaint with `miniscript::Error`'s `to_string`. The
/// wording is `miniscript`'s own; nothing is taken on trust about it.
#[verifier::external_body]
fn render_error(error: &miniscript::Error) -> String {
    error.to_string()
}

/// Steps the brace level over one more character.
proof fn lemma_brace_step(text: Seq<char>, seen: int)
    requires
        0 <= seen < text.len(),
    ensures
        text.take(seen + 1).drop_last() == text.take(seen),
        text.take(seen + 1).last() == text[seen],
        brace_level(text.take(seen)) <= seen,
        brace_depth(text.take(seen)) <= seen,
    decreases seen,
{
    assert(text.take(seen + 1).drop_last() =~= text.take(seen));
    if seen > 0 {
        lemma_brace_step(text, seen - 1);
    }
}

/// The deepest nesting of braces in `text`.
pub fn tree_depth(text: &str) -> (r: usize)
    ensures
        r == brace_depth(text@),
{
    broadcast use vstd::string::group_string_axioms;

    let length: usize = text.unicode_len();
    let mut rest = text.chars();
    let mut seen: usize = 0;
    let mut level: usize = 0;
    let mut depth: usize = 0;
    while seen < length
        invariant
            length == text@.len(),
            seen <= length,
            rest.remaining() == text@.skip(seen as int),
            level == brace_level(text@.take(seen as int)),
            depth == brace_depth(text@.take(seen as int)),
            level <= seen,
            depth <= seen,
        decreases length - seen,
    {
        proof {
            lemma_brace_step(text@, seen as int);
        }
        match rest.next() {
            None => {
                // The text has `length` characters, so this arm is never taken.
                return depth;
            },
            Some(c) => {
                if c == '{' {
                    level = level + 1;
                } else if c == '}' && level > 0 {
                    level = level - 1;
                }
                if level > depth {
                    depth = level;
                }
                seen = seen + 1;
            },
        }
    }
    proof {
        assert(text@.take(seen as int) =~= text@);
    }
    depth
}

impl OutputDescriptor {
    /// Parses descriptor text, and says why where it cannot.
    ///
    /// Text that nests braces deeper than `MAX_TREE_DEPTH` is refused with a
    /// reason of this library's; any other refusal carries the parser's own
    /// words.
    pub fn parse_with_reason(text: &str) -> (r: Result<OutputDescriptor, String>)
        ensures
            r is Ok <==> well_formed(text@),
            r matches Ok(d) ==> d@ == text@,
            r matches Err(reason) ==> (brace_depth(text@) > MAX_TREE_DEPTH ==> reason@
                == "Script tree is nested more than 128 levels deep"@),
    {
        if tree_depth(text) > MAX_TREE_DEPTH {
            return Err("Script tree is nested more than 128 levels deep".to_owned());
        }
        match parse_text(text) {
            Ok(d) => Ok(d),
            Err(error) => Err(render_error(&error)),
        }
    }

    /// Parses descriptor text.
    pub fn parse(text: &str) -> (r: Result<OutputDescriptor, SearchError>)
        ensures
            r is Ok <==> well_formed(text@),
            r matches Ok(d) ==> d@ == text@,
            r matches Err(e) ==> e == SearchError::ParseError,
    {
        match OutputDescriptor::parse_with_reason(text) {
            Ok(d) => Ok(d),
            Err(_) => Err(SearchError::ParseError),
        }
    }

    /// The text this descriptor was parsed from.
    pub fn text(&self) -> (r: &str)
        ensures
            r@ == self@,
    {
        self.text.as_str()
    }

    /// Whether the descriptor has a child sequence, that is, holds a wildcard.
    pub fn is_derivable(&self) -> (r: bool)
        ensures
            r == descriptor_is_ranged(self@),
    {
        proof {
            use_type_invariant(self);
        }
        has_wildcard(self)
    }

    /// Accepts ranged descriptors and rejects the others.
    pub fn validate(&self) -> (r: Result<(), SearchError>)
        ensures
            r is Ok <==> descriptor_is_ranged(self@),
            r matches Err(e) ==> e == SearchError::ValidationError,
    {
        if self.is_derivable() {
            Ok(())
        } else {
            Err(SearchError::ValidationError)
        }
    }

    /// The address of child `index`.
    ///
    /// Fails with `DerivationError` where the index lies outside the index
    /// space or the child has no address.
    pub fn derive_address(&self, index: u32) -> (r: Result<String, SearchError>)
        ensures
            r is Ok <==> address_at(self@, index as int) is Some,
            r matches Ok(a) ==> address_at(self@, index as int) == Some(a@),
            r matches Err(e) ==> e == SearchError::DerivationError,
    {
        if index >= INDEX_LIMIT {
            return Err(SearchError::DerivationError);
        }
        proof {
            use_type_invariant(self);
        }
        match derive_address_text(self, index) {
            Some(a) => Ok(a),
            None => Err(SearchError::DerivationError),
        }
    }
}

} // verus!
