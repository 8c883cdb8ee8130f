use satstone::deriver::{derive_addresses, derive_addresses_for_chain};
use satstone::keyformat::{convert_to_xpub, parse_xpub, AddressFamily};
use satstone::ErrorKind;

const XPUB: &str = "xpub661MyMwAqRbcFtXgS5sYJABqqG9YLmC4Q1Rdap9gSE8NqtwybGhePY2gZ29ESFjqJoCu1Rupje8YtGqsefD265TMg7usUDFdp6W1EGMcet8";
const ZPUB: &str = "zpub6jftahH18ngZxUuv6oSniLNrBCSSE1B4EEU59bwTCEt8x6aS6b2mdfLxbS4QS53g85SWWP6wexqeer516433gYpZQoJie2tcMYdJ1SYYYAL";
const YPUB: &str = "ypub6QqdH2c5z7967BioGSfAWFHM1EHzHPBZK7wrND3ZpEWFtzmCqvsD1bgpaE6pSAPkiSKhkuWPCJV6mZTSNMd2tK8xYTcJ48585pZecmSUzWp";

#[test]
fn zpub_and_ypub_convert_to_the_same_xpub() {
    assert_eq!(convert_to_xpub(ZPUB).unwrap(), XPUB);
    assert_eq!(convert_to_xpub(YPUB).unwrap(), XPUB);
    // The plain encoding is re-encoded too, not handed back.
    assert_eq!(convert_to_xpub(XPUB).unwrap(), XPUB);
    assert!(matches!(convert_to_xpub("1111"), Err(ErrorKind::InvalidKey(_))));
}

#[test]
fn family_follows_prefix() {
    let z = parse_xpub(ZPUB).unwrap();
    assert_eq!(z.family, AddressFamily::NativeSegwit);
    assert_eq!(z.canonical, XPUB);
    let y = parse_xpub(YPUB).unwrap();
    assert_eq!(y.family, AddressFamily::NestedSegwit);
    assert_eq!(y.canonical, XPUB);
    let x = parse_xpub(XPUB).unwrap();
    assert_eq!(x.family, AddressFamily::Legacy);
    assert_eq!(x.canonical, XPUB);
}

#[test]
fn malformed_keys_are_invalid_keys() {
    let bad_checksum = "xpub661MyMwAqRbcFtXgS5sYJABqqG9YLmC4Q1Rdap9gSE8NqtwybGhePY2gZ29ESFjqJoCu1Rupje8YtGqsefD265TMg7usUDFdp6W1EGMcet9";
    assert!(matches!(parse_xpub(bad_checksum), Err(ErrorKind::InvalidKey(_))));
    assert!(matches!(parse_xpub("zpub0000"), Err(ErrorKind::InvalidKey(_))));
    assert!(matches!(parse_xpub(""), Err(ErrorKind::InvalidKey(_))));
    assert!(matches!(derive_addresses("nonsense", 0, 3), Err(ErrorKind::InvalidKey(_))));
}

#[test]
fn addresses_render_per_family() {
    let native = derive_addresses(ZPUB, 0, 3).unwrap();
    let nested = derive_addresses(YPUB, 0, 3).unwrap();
    let legacy = derive_addresses(XPUB, 0, 3).unwrap();
    for a in &native {
        assert!(a.starts_with("bc1q") && a.len() == 42);
    }
    for a in &nested {
        assert!(a.starts_with('3'));
    }
    for a in &legacy {
        assert!(a.starts_with('1'));
    }
    assert_eq!(native.len(), 3);
    assert_ne!(native[0], native[1]);
}

#[test]
fn batches_agree_with_single_derivations() {
    let batch = derive_addresses_for_chain(ZPUB, 1, 5, 4).unwrap();
    for (k, a) in batch.iter().enumerate() {
        let single = derive_addresses_for_chain(ZPUB, 1, 5 + k as u32, 1).unwrap();
        assert_eq!(&single[0], a);
    }
    assert_eq!(derive_addresses(ZPUB, 0, 2).unwrap(), derive_addresses_for_chain(ZPUB, 0, 0, 2).unwrap());
}

#[test]
fn receiving_and_change_addresses_never_collide() {
    for key in [XPUB, YPUB, ZPUB] {
        let receiving = derive_addresses_for_chain(key, 0, 0, 10).unwrap();
        let change = derive_addresses_for_chain(key, 1, 0, 10).unwrap();
        for a in &receiving {
            assert!(!change.contains(a));
        }
    }
}

#[test]
fn hardened_indices_fail_derivation() {
    assert_eq!(derive_addresses(ZPUB, 0x7FFF_FFFF, 2), Err(ErrorKind::DerivationFailed));
    assert_eq!(derive_addresses_for_chain(ZPUB, 0x8000_0000, 0, 1), Err(ErrorKind::DerivationFailed));
    assert_eq!(derive_addresses(ZPUB, 0x7FFF_FFFF, 1).unwrap().len(), 1);
    assert_eq!(derive_addresses(ZPUB, 0xFFFF_FFFF, 0).unwrap(), Vec::<String>::new());
}
