//! Telling address formats apart by their first character.
//!
//! Every address of one descriptor has the same format, so one sample
//! decides how many leading characters are owed to the format and are
//! skipped when a candidate is compared with the wanted prefix.

use vstd::prelude::*;
use crate::descriptor::{address_at, OutputDescriptor};
use crate::error::SearchError;

verus! {

/// The index whose address is inspected to classify a descriptor.
pub const PROBE_INDEX: u32 = 1;

/// Leading characters owed to the format of a legacy address.
pub const LEGACY_LEAD_IN: usize = 1;

/// Leading characters owed to the format of a segwit-family address.
pub const SEGWIT_LEAD_IN: usize = 4;

/// What `char::is_numeric` answers for `c`.
pub uninterp spec fn char_is_numeric(c: char) -> bool;

/// Whether `c` is one of the 128 ASCII characters.
pub open spec fn is_ascii_char(c: char) -> bool {
    c <= '\u{7f}'
}

/// Whether `c` is one of the ten ASCII digits.
pub open spec fn is_ascii_digit(c: char) -> bool {
    '0' <= c && c <= '9'
}

/// `char::is_numeric` is a function of the character alone. Among the ASCII
/// characters it holds of the ten digits and of nothing else; beyond them it
/// follows Unicode's tables, which are not restated here.
pub assume_specification[ char::is_numeric ](c: char) -> (r: bool)
    ensures
        r == char_is_numeric(c),
        is_ascii_char(c) ==> r == is_ascii_digit(c),
;

/// The lead-in length of a format, given whether its addresses start with a
/// numeric character.
pub open spec fn lead_in_of(numeric_lead: bool) -> usize {
    if numeric_lead {
        LEGACY_LEAD_IN
    } else {
        SEGWIT_LEAD_IN
    }
}

/// The skip offset that a sample address stands for; an empty sample has no
/// first character and stands for none.
pub open spec fn skip_offset_of(sample: Seq<char>) -> Option<usize> {
    if sample.len() == 0 {
        None
    } else {
        Some(lead_in_of(char_is_numeric(sample[0])))
    }
}

/// The skip offset of a descriptor: that of its address at the probe index.
pub open spec fn descriptor_skip_offset(text: Seq<char>) -> Option<usize> {
    match address_at(text, PROBE_INDEX as int) {
        Some(sample) => skip_offset_of(sample),
        None => None,
    }
}

/// Maps the lead character's class to the number of characters to skip:
/// 1 after a numeric lead (legacy), 4 otherwise (segwit family).
pub fn lead_in_length(numeric_lead: bool) -> (r: usize)
    ensures
        r == lead_in_of(numeric_lead),
        r == if numeric_lead { 1usize } else { 4usize },
{
    if numeric_lead {
        LEGACY_LEAD_IN
    } else {
        SEGWIT_LEAD_IN
    }
}

/// Classifies one sample address.
///
/// A sample without a first character belongs to neither known format and
/// is refused with `DerivationError`.
pub fn skip_offset(sample: &str) -> (r: Result<usize, SearchError>)
    ensures
        r is Ok <==> sample@.len() > 0,
        r matches Ok(skip) ==> skip_offset_of(sample@) == Some(skip),
        r matches Ok(skip) ==> (is_ascii_char(sample@[0]) ==> skip == lead_in_of(
            is_ascii_digit(sample@[0]),
        )),
        r matches Err(e) ==> e == SearchError::DerivationError,
{
    if sample.is_empty() {
        return Err(SearchError::DerivationError);
    }
    let lead: char = sample.get_char(0);
    Ok(lead_in_length(lead.is_numeric()))
}

/// Classifies a descriptor by the address of its child at the probe index.
///
/// Fails with `DerivationError` exactly where that address cannot be
/// derived or is empty.
pub fn address_prefix_length(descriptor: &OutputDescriptor) -> (r: Result<usize, SearchError>)
    ensures
        r is Ok <==> descriptor_skip_offset(descriptor@) is Some,
        r matches Ok(skip) ==> descriptor_skip_offset(descriptor@) == Some(skip),
        r matches Ok(skip) ==> (address_at(descriptor@, PROBE_INDEX as int) matches Some(sample)
            && (is_ascii_char(sample[0]) ==> skip == lead_in_of(is_ascii_digit(sample[0])))),
        r matches Err(e) ==> e == SearchError::DerivationError,
{
    match descriptor.derive_address(PROBE_INDEX) {
        Ok(sample) => skip_offset(sample.as_str()),
        Err(e) => Err(e),
    }
}

/// Classification depends on the descriptor's text alone: two descriptors
/// with the same text have the same skip offset, and so has one descriptor
/// whenever it is asked again.
pub proof fn lemma_classification_deterministic(a: OutputDescriptor, b: OutputDescriptor)
    requires
        a@ == b@,
    ensures
        descriptor_skip_offset(a@) == descriptor_skip_offset(b@),
{
}

/// A numeric lead character at the probe index gives the skip offset 1, any
/// other lead character gives 4.
pub proof fn lemma_skip_offset_by_lead(text: Seq<char>, sample: Seq<char>)
    requires
        address_at(text, PROBE_INDEX as int) == Some(sample),
        sample.len() > 0,
    ensures
        char_is_numeric(sample[0]) ==> descriptor_skip_offset(text) == Some(1usize),
        !char_is_numeric(sample[0]) ==> descriptor_skip_offset(text) == Some(4usize),
{
}

} // verus!
