use vanity_search::classify::{
    address_prefix_length, lead_in_length, skip_offset, LEGACY_LEAD_IN, PROBE_INDEX,
    SEGWIT_LEAD_IN,
};
use vanity_search::descriptor::OutputDescriptor;
use vanity_search::error::SearchError;

const ACCOUNT: &str = "xpub6BgBgsespWvERF3LHQu6CnqdvfEvtMcQjYrcRzx53QJjSxarj2afYWcLteoGVky7D3UKDP9QyrLprQ3VCECoY49yfdDEHGCtMMj92pReUsQ";

fn parsed(form: &str) -> OutputDescriptor {
    OutputDescriptor::parse(&form.replace("KEY", ACCOUNT)).unwrap()
}

#[test]
fn lead_in_is_one_or_four() {
    assert_eq!(lead_in_length(true), 1);
    assert_eq!(lead_in_length(false), 4);
    assert_eq!(LEGACY_LEAD_IN, 1);
    assert_eq!(SEGWIT_LEAD_IN, 4);
    assert_eq!(PROBE_INDEX, 1);
}

#[test]
fn legacy_sample_skips_one() {
    assert_eq!(skip_offset("1NsJS4DAHLcegD63trZurmkLm23TRAujXd"), Ok(1));
    assert_eq!(skip_offset("39oRj36VbCJdky8wsPCT5FMQNRUUekuoUr"), Ok(1));
    assert_eq!(skip_offset("1"), Ok(1));
}

#[test]
fn segwit_sample_skips_four() {
    assert_eq!(skip_offset("bc1qalwlmdxd2ggue4290ekzxl9tetg56neexr6amw"), Ok(4));
    assert_eq!(
        skip_offset("bc1p5cyxnuxmeuwuvkwfem96lqzszd02n6xdcjrs20cac6yqjjwudpxqkedrcr"),
        Ok(4)
    );
    assert_eq!(skip_offset("b"), Ok(4));
}

#[test]
fn numeric_lead_outside_ascii_counts_as_numeric() {
    assert_eq!(skip_offset("\u{0663}abc"), Ok(1));
    assert_eq!(skip_offset("\u{00e9}abc"), Ok(4));
}

#[test]
fn empty_sample_is_refused() {
    assert_eq!(skip_offset(""), Err(SearchError::DerivationError));
}

#[test]
fn classifies_descriptors_by_their_probe_address() {
    assert_eq!(address_prefix_length(&parsed("pkh(KEY/0/*)")), Ok(1));
    assert_eq!(address_prefix_length(&parsed("sh(wpkh(KEY/0/*))")), Ok(1));
    assert_eq!(address_prefix_length(&parsed("wpkh(KEY/0/*)")), Ok(4));
    assert_eq!(address_prefix_length(&parsed("wsh(pk(KEY/0/*))")), Ok(4));
    assert_eq!(address_prefix_length(&parsed("tr(KEY/0/*)")), Ok(4));
}

#[test]
fn classification_is_repeatable() {
    let legacy = parsed("pkh(KEY/0/*)");
    let again = parsed("pkh(KEY/0/*)");
    assert_eq!(address_prefix_length(&legacy), address_prefix_length(&legacy));
    assert_eq!(address_prefix_length(&legacy), address_prefix_length(&again));
}

#[test]
fn classification_agrees_with_the_probe_sample() {
    let segwit = parsed("wpkh(KEY/0/*)");
    let sample = segwit.derive_address(PROBE_INDEX).unwrap();
    assert_eq!(sample, "bc1qytm2qwnmv7lys5w6gpfxfzydwpwey5dy4zw9v6");
    assert_eq!(address_prefix_length(&segwit), skip_offset(&sample));
}

#[test]
fn classification_fails_where_the_probe_fails() {
    assert_eq!(
        address_prefix_length(&parsed("wpkh(KEY/0/*h)")),
        Err(SearchError::DerivationError)
    );
    assert_eq!(address_prefix_length(&parsed("pk(KEY/0/*)")), Err(SearchError::DerivationError));
}
