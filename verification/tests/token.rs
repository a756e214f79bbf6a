//! Tests of the token-side validation helpers: logo checks and
//! initial-balance account validation.

use cw_storage_osmosis::token::{
    validate_accounts, verify_logo, verify_png_logo, verify_xml_logo, verify_xml_preamble,
    ContractError, Cw20Coin, EmbeddedLogo, Logo,
};

const PNG_HEADER: [u8; 8] = [0x89, b'P', b'N', b'G', 0x0d, 0x0a, 0x1a, 0x0a];

fn coin(address: &str, amount: u128) -> Cw20Coin {
    Cw20Coin { address: address.to_string(), amount }
}

#[test]
fn xml_preamble_accepts_well_formed() {
    assert_eq!(verify_xml_preamble(b"<?xml version=\"1.0\"?><svg/>"), Ok(()));
    assert_eq!(verify_xml_preamble(b"<?xml ?>"), Ok(()));
}

#[test]
fn xml_preamble_rejects_malformed() {
    assert_eq!(
        verify_xml_preamble(b""),
        Err(ContractError::InvalidXmlPreamble {})
    );
    assert_eq!(
        verify_xml_preamble(b"<svg/>"),
        Err(ContractError::InvalidXmlPreamble {})
    );
    // Opens right but the first chunk does not close with "?>".
    assert_eq!(
        verify_xml_preamble(b"<?xml version><svg/>"),
        Err(ContractError::InvalidXmlPreamble {})
    );
    // No '>' at all.
    assert_eq!(
        verify_xml_preamble(b"<?xml version"),
        Err(ContractError::InvalidXmlPreamble {})
    );
}

#[test]
fn xml_logo_respects_size_cap() {
    let mut logo = b"<?xml version=\"1.0\"?>".to_vec();
    logo.resize(5 * 1024, b' ');
    assert_eq!(verify_xml_logo(&logo), Ok(()));
    logo.push(b' ');
    assert_eq!(verify_xml_logo(&logo), Err(ContractError::LogoTooBig {}));
}

#[test]
fn png_logo_checks_header_and_size() {
    let mut logo = PNG_HEADER.to_vec();
    logo.extend_from_slice(&[1, 2, 3]);
    assert_eq!(verify_png_logo(&logo), Ok(()));

    assert_eq!(
        verify_png_logo(&[1, 2, 3]),
        Err(ContractError::InvalidPngHeader {})
    );

    let mut big = PNG_HEADER.to_vec();
    big.resize(5 * 1024 + 1, 0);
    assert_eq!(verify_png_logo(&big), Err(ContractError::LogoTooBig {}));
}

#[test]
fn logo_dispatches_by_kind() {
    assert_eq!(
        verify_logo(&Logo::Url("https://example.com/logo.png".to_string())),
        Ok(())
    );
    assert_eq!(
        verify_logo(&Logo::Embedded(EmbeddedLogo::Png(PNG_HEADER.to_vec()))),
        Ok(())
    );
    assert_eq!(
        verify_logo(&Logo::Embedded(EmbeddedLogo::Svg(b"<?xml ?>".to_vec()))),
        Ok(())
    );
    assert_eq!(
        verify_logo(&Logo::Embedded(EmbeddedLogo::Svg(b"not xml".to_vec()))),
        Err(ContractError::InvalidXmlPreamble {})
    );
}

#[test]
fn accounts_must_be_distinct() {
    assert_eq!(validate_accounts(&[]), Ok(()));
    assert_eq!(
        validate_accounts(&[coin("addr1", 1), coin("addr2", 2), coin("addr3", 3)]),
        Ok(())
    );
    assert_eq!(
        validate_accounts(&[coin("addr1", 1), coin("addr2", 2), coin("addr1", 3)]),
        Err(ContractError::DuplicateInitialBalanceAddresses {})
    );
    // Equal amounts are fine; only addresses must differ.
    assert_eq!(
        validate_accounts(&[coin("addr1", 5), coin("addr2", 5)]),
        Ok(())
    );
}
