//! Validation helpers of the fungible-token contract: embedded-logo
//! checks and initial-balance account validation.
//!
//! A logo arrives either as a URL, as embedded SVG bytes, or as
//! embedded PNG bytes; embedded data is held to a size cap and to the
//! shape of its format's header.

use vstd::prelude::*;

verus! {

/// The size cap, in bytes, for an embedded logo.
pub const LOGO_SIZE_CAP: usize = 5 * 1024;

/// An embedded logo: the image data together with its format.
#[derive(PartialEq, Debug)]
pub enum EmbeddedLogo {
    Svg(Vec<u8>),
    Png(Vec<u8>),
}

/// A token logo: a URL to an external image, or embedded image data.
#[derive(PartialEq, Debug)]
pub enum Logo {
    Url(String),
    Embedded(EmbeddedLogo),
}

/// One initial balance: an account address and its token amount.
#[derive(PartialEq, Debug)]
pub struct Cw20Coin {
    pub address: String,
    pub amount: u128,
}

/// The failures of the validation helpers.
#[derive(PartialEq, Debug)]
pub enum ContractError {
    /// The data does not open with an XML preamble.
    InvalidXmlPreamble {},
    /// The embedded logo exceeds the size cap.
    LogoTooBig {},
    /// The data does not open with the PNG header.
    InvalidPngHeader {},
    /// Two initial balances name the same address.
    DuplicateInitialBalanceAddresses {},
}

/// True when `s` opens with `p`.
pub open spec fn bytes_start_with(s: Seq<u8>, p: Seq<u8>) -> bool {
    s.len() >= p.len() && s.take(p.len() as int) == p
}

/// True when `s` closes with `p`.
pub open spec fn bytes_end_with(s: Seq<u8>, p: Seq<u8>) -> bool {
    s.len() >= p.len() && s.skip(s.len() - p.len()) == p
}

/// The data up to and including its first `'>'` byte, or all of it
/// when none occurs: the first chunk of splitting inclusively at
/// `'>'`.
pub open spec fn preamble_of(data: Seq<u8>) -> Seq<u8>
    decreases data.len(),
{
    if data.len() == 0 {
        data
    } else if data[0] == 62u8 {
        seq![data[0]]
    } else {
        seq![data[0]] + preamble_of(data.drop_first())
    }
}

/// The bytes of `"<?xml "`.
pub open spec fn xml_prefix() -> Seq<u8> {
    seq![60u8, 63u8, 120u8, 109u8, 108u8, 32u8]
}

/// The bytes of `"?>"`.
pub open spec fn xml_postfix() -> Seq<u8> {
    seq![63u8, 62u8]
}

/// True when the data opens with an XML preamble: its first
/// `'>'`-inclusive chunk starts with `"<?xml "` and ends with `"?>"`.
pub open spec fn xml_preamble_ok(data: Seq<u8>) -> bool {
    &&& data.len() > 0
    &&& bytes_start_with(preamble_of(data), xml_prefix())
    &&& bytes_end_with(preamble_of(data), xml_postfix())
}

/// What checking an embedded SVG logo yields: the preamble check
/// first, then the size cap.
pub open spec fn xml_logo_check(logo: Seq<u8>) -> Result<(), ContractError> {
    if !xml_preamble_ok(logo) {
        Err(ContractError::InvalidXmlPreamble {})
    } else if logo.len() > LOGO_SIZE_CAP as int {
        Err(ContractError::LogoTooBig {})
    } else {
        Ok(())
    }
}

/// The eight bytes every PNG file opens with.
pub open spec fn png_header() -> Seq<u8> {
    seq![137u8, 80u8, 78u8, 71u8, 13u8, 10u8, 26u8, 10u8]
}

/// What checking an embedded PNG logo yields: the size cap first,
/// then the header.
pub open spec fn png_logo_check(logo: Seq<u8>) -> Result<(), ContractError> {
    if logo.len() > LOGO_SIZE_CAP as int {
        Err(ContractError::LogoTooBig {})
    } else if !bytes_start_with(logo, png_header()) {
        Err(ContractError::InvalidPngHeader {})
    } else {
        Ok(())
    }
}

/// What checking a logo yields: URLs pass as they are; embedded data
/// is checked by its format.
pub open spec fn logo_check(logo: Logo) -> Result<(), ContractError> {
    match logo {
        Logo::Embedded(EmbeddedLogo::Svg(data)) => xml_logo_check(data@),
        Logo::Embedded(EmbeddedLogo::Png(data)) => png_logo_check(data@),
        Logo::Url(_) => Ok(()),
    }
}

/// True when no two accounts share an address.
pub open spec fn addresses_distinct(accounts: Seq<Cw20Coin>) -> bool {
    forall|i: int, j: int|
        0 <= i < j < accounts.len() ==> (#[trigger] accounts[i]).address@ != (
        #[trigger] accounts[j]).address@
}

/// The first `'>'`-inclusive chunk of `data` is its prefix of length
/// `end`, where `end` runs to just past the first `'>'`, or to the
/// whole length when none occurs.
proof fn lemma_preamble_at(data: Seq<u8>, end: int)
    requires
        0 < end <= data.len(),
        forall|j: int| 0 <= j < end - 1 ==> data[j] != 62u8,
        data[end - 1] == 62u8 || end == data.len(),
    ensures
        preamble_of(data) == data.take(end),
    decreases end,
{
    if data[0] == 62u8 {
        assert(end == 1);
        assert(data.take(1) =~= seq![data[0]]);
    } else if end == 1 {
        assert(end == data.len());
        assert(data.drop_first().len() == 0);
        assert(preamble_of(data) == seq![data[0]] + preamble_of(data.drop_first()));
        assert(seq![data[0]] + preamble_of(data.drop_first()) =~= seq![data[0]]);
        assert(data.take(1) =~= seq![data[0]]);
    } else {
        lemma_preamble_at(data.drop_first(), end - 1);
        assert(seq![data[0]] + data.drop_first().take(end - 1) =~= data.take(end));
    }
}

/// Checks that the data opens with an XML preamble.
pub fn verify_xml_preamble(data: &[u8]) -> (r: Result<(), ContractError>)
    ensures
        r == (if xml_preamble_ok(data@) {
            Ok::<(), ContractError>(())
        } else {
            Err::<(), ContractError>(ContractError::InvalidXmlPreamble {})
        }),
{
    let n = data.len();
    if n == 0 {
        return Err(ContractError::InvalidXmlPreamble {});
    }
    let mut i: usize = 0;
    while i < n && data[i] != 62u8
        invariant
            n == data@.len(),
            i <= n,
            forall|j: int| 0 <= j < i ==> data@[j] != 62u8,
        decreases n - i,
    {
        i = i + 1;
    }
    let end = if i < n {
        i + 1
    } else {
        n
    };
    proof {
        lemma_preamble_at(data@, end as int);
    }
    let ghost chunk = preamble_of(data@);
    if end < 6 {
        proof {
            assert(chunk.len() == end);
            assert(!bytes_start_with(chunk, xml_prefix()));
        }
        return Err(ContractError::InvalidXmlPreamble {});
    }
    if !(data[0] == 60u8 && data[1] == 63u8 && data[2] == 120u8 && data[3] == 109u8 && data[4]
        == 108u8 && data[5] == 32u8) {
        proof {
            assert(chunk.take(6) != xml_prefix()) by {
                assert(chunk.take(6)[0] == data@[0]);
                assert(chunk.take(6)[1] == data@[1]);
                assert(chunk.take(6)[2] == data@[2]);
                assert(chunk.take(6)[3] == data@[3]);
                assert(chunk.take(6)[4] == data@[4]);
                assert(chunk.take(6)[5] == data@[5]);
            }
            assert(!bytes_start_with(chunk, xml_prefix()));
        }
        return Err(ContractError::InvalidXmlPreamble {});
    }
    proof {
        assert(chunk.take(6) =~= xml_prefix());
        assert(bytes_start_with(chunk, xml_prefix()));
    }
    if !(data[end - 2] == 63u8 && data[end - 1] == 62u8) {
        proof {
            assert(chunk.skip(end - 2)[0] == data@[end - 2]);
            assert(chunk.skip(end - 2)[1] == data@[end - 1]);
            assert(chunk.skip(end - 2) != xml_postfix());
            assert(!bytes_end_with(chunk, xml_postfix()));
        }
        return Err(ContractError::InvalidXmlPreamble {});
    }
    proof {
        assert(chunk.skip(end - 2) =~= xml_postfix());
        assert(bytes_end_with(chunk, xml_postfix()));
    }
    Ok(())
}

/// Checks an embedded SVG logo: XML preamble first, then the size
/// cap.
pub fn verify_xml_logo(logo: &[u8]) -> (r: Result<(), ContractError>)
    ensures
        r == xml_logo_check(logo@),
{
    match verify_xml_preamble(logo) {
        Ok(()) => {
            if logo.len() > LOGO_SIZE_CAP {
                Err(ContractError::LogoTooBig {})
            } else {
                Ok(())
            }
        },
        Err(e) => Err(e),
    }
}

/// Checks an embedded PNG logo: size cap first, then the header.
pub fn verify_png_logo(logo: &[u8]) -> (r: Result<(), ContractError>)
    ensures
        r == png_logo_check(logo@),
{
    if logo.len() > LOGO_SIZE_CAP {
        return Err(ContractError::LogoTooBig {});
    }
    if logo.len() < 8 {
        proof {
            assert(!bytes_start_with(logo@, png_header()));
        }
        return Err(ContractError::InvalidPngHeader {});
    }
    if logo[0] == 137u8 && logo[1] == 80u8 && logo[2] == 78u8 && logo[3] == 71u8 && logo[4] == 13u8
        && logo[5] == 10u8 && logo[6] == 26u8 && logo[7] == 10u8 {
        proof {
            assert(logo@.take(8) =~= png_header());
        }
        Ok(())
    } else {
        proof {
            assert(logo@.take(8) != png_header()) by {
                assert(logo@.take(8)[0] == logo@[0]);
                assert(logo@.take(8)[1] == logo@[1]);
                assert(logo@.take(8)[2] == logo@[2]);
                assert(logo@.take(8)[3] == logo@[3]);
                assert(logo@.take(8)[4] == logo@[4]);
                assert(logo@.take(8)[5] == logo@[5]);
                assert(logo@.take(8)[6] == logo@[6]);
                assert(logo@.take(8)[7] == logo@[7]);
            }
        }
        Err(ContractError::InvalidPngHeader {})
    }
}

/// Checks a logo: URLs pass as they are; embedded data is checked by
/// its format.
pub fn verify_logo(logo: &Logo) -> (r: Result<(), ContractError>)
    ensures
        r == logo_check(*logo),
{
    match logo {
        Logo::Embedded(EmbeddedLogo::Svg(data)) => verify_xml_logo(data.as_slice()),
        Logo::Embedded(EmbeddedLogo::Png(data)) => verify_png_logo(data.as_slice()),
        Logo::Url(_) => Ok(()),
    }
}

/// Checks that no two initial balances name the same address.
pub fn validate_accounts(accounts: &[Cw20Coin]) -> (r: Result<(), ContractError>)
    ensures
        r == (if addresses_distinct(accounts@) {
            Ok::<(), ContractError>(())
        } else {
            Err::<(), ContractError>(ContractError::DuplicateInitialBalanceAddresses {})
        }),
{
    let n = accounts.len();
    let mut i: usize = 0;
    while i < n
        invariant
            n == accounts@.len(),
            i <= n,
            forall|x: int, y: int|
                0 <= x < i && x < y < n ==> (#[trigger] accounts@[x]).address@ != (
                #[trigger] accounts@[y]).address@,
        decreases n - i,
    {
        let mut j: usize = i + 1;
        while j < n
            invariant
                n == accounts@.len(),
                i < j <= n,
                i < n,
                forall|y: int|
                    i < y < j ==> (#[trigger] accounts@[y]).address@ != accounts@[i as int].address@,
            decreases n - j,
        {
            if accounts[i].address == accounts[j].address {
                return Err(ContractError::DuplicateInitialBalanceAddresses {});
            }
            j = j + 1;
        }
        i = i + 1;
    }
    Ok(())
}

} // verus!
