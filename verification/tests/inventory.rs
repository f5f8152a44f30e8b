use gpg_expire_warner::status::parse_expiry;
use gpg_expire_warner::status::parse_inventory;
use gpg_expire_warner::Error;
use gpg_expire_warner::KeyId;

fn fp(c: char) -> String {
    let mut s = String::new();
    for _ in 0..40 {
        s.push(c);
    }
    s
}

#[test]
fn keyid_accepts_canonical_fingerprints() {
    let text = fp('A');
    let id = KeyId::parse(&text).expect("40 uppercase hex characters must parse");
    assert_eq!(id.as_str(), text);

    let mixed = "0123456789ABCDEF0123456789ABCDEF01234567";
    let id = KeyId::parse(mixed).expect("digits and A-F must parse");
    assert_eq!(id.as_str(), mixed);
}

#[test]
fn keyid_rejects_wrong_length() {
    assert_eq!(KeyId::parse(""), Err(Error::InvalidIdentifier));
    let short = &fp('A')[..39];
    assert_eq!(KeyId::parse(short), Err(Error::InvalidIdentifier));
    let mut long = fp('A');
    long.push('A');
    assert_eq!(KeyId::parse(&long), Err(Error::InvalidIdentifier));
}

#[test]
fn keyid_rejects_wrong_characters() {
    let mut lower = fp('A');
    lower.replace_range(0..1, "a");
    assert_eq!(KeyId::parse(&lower), Err(Error::InvalidIdentifier));

    let mut nonhex = fp('A');
    nonhex.replace_range(39..40, "G");
    assert_eq!(KeyId::parse(&nonhex), Err(Error::InvalidIdentifier));

    let mut nonascii = fp('A');
    nonascii.replace_range(0..1, "\u{00c4}");
    assert_eq!(KeyId::parse(&nonascii), Err(Error::InvalidIdentifier));
}

#[test]
fn hierarchy_groups_subordinates_under_their_primary() {
    let a = fp('A');
    let b = fp('B');
    let c = fp('C');
    let d = fp('D');
    let text = format!(
        "tru::1:1700000000:0:3:1:5\n\
         pub:u:255:22:AAAA:1600000000:1700000000::u:::scESC:::::ed25519:::0:\n\
         fpr:::::::::{a}:\n\
         uid:u::::1600000000::HASH::Someone <someone@example.org>::::::::::0:\n\
         sub:u:255:22:BBBB:1600000000:1700086400:::::a:::::::23:\n\
         fpr:::::::::{b}:\n\
         sub:u:255:22:CCCC:1600000000::::::a:::::::23:\n\
         fpr:::::::::{c}:\n\
         pub:u:255:22:DDDD:1600000000:::u:::scESC:::::ed25519:::0:\n\
         fpr:::::::::{d}:\n"
    );
    let status = parse_inventory(&text).expect("well-formed stream must parse");
    assert_eq!(status.main_keys.len(), 2);
    assert_eq!(status.main_keys[0].status.fingerprint.as_str(), a);
    assert_eq!(status.main_keys[0].status.expires, Some(1700000000));
    assert_eq!(status.main_keys[0].subkeys.len(), 2);
    assert_eq!(status.main_keys[0].subkeys[0].fingerprint.as_str(), b);
    assert_eq!(status.main_keys[0].subkeys[0].expires, Some(1700086400));
    assert_eq!(status.main_keys[0].subkeys[1].fingerprint.as_str(), c);
    assert_eq!(status.main_keys[0].subkeys[1].expires, None);
    assert_eq!(status.main_keys[1].status.fingerprint.as_str(), d);
    assert_eq!(status.main_keys[1].status.expires, None);
    assert_eq!(status.main_keys[1].subkeys.len(), 0);
}

#[test]
fn hierarchy_handles_crlf_and_empty_input() {
    let a = fp('A');
    let text = format!(
        "pub:u:255:22:AAAA:1600000000:1700000000:\r\nfpr:::::::::{a}:\r\n"
    );
    let status = parse_inventory(&text).expect("CRLF line breaks must parse");
    assert_eq!(status.main_keys.len(), 1);
    assert_eq!(status.main_keys[0].status.fingerprint.as_str(), a);

    let empty = parse_inventory("").expect("an empty listing is an empty inventory");
    assert_eq!(empty.main_keys.len(), 0);
}

#[test]
fn subordinate_before_primary_is_structural_failure() {
    let b = fp('B');
    let text = format!(
        "sub:u:255:22:BBBB:1600000000:1700086400:\nfpr:::::::::{b}:\n"
    );
    assert_eq!(parse_inventory(&text).unwrap_err(), Error::StructuralParse);
}

#[test]
fn missing_fingerprint_line_is_structural_failure() {
    let a = fp('A');
    let b = fp('B');
    // A primary record directly followed by another primary record.
    let text = format!(
        "pub:u:255:22:AAAA:1600000000:1700000000:\n\
         pub:u:255:22:BBBB:1600000000:1700000000:\n\
         fpr:::::::::{a}:\n\
         fpr:::::::::{b}:\n"
    );
    assert_eq!(parse_inventory(&text).unwrap_err(), Error::StructuralParse);

    // A dangling primary record at the end of the stream.
    let text = "pub:u:255:22:AAAA:1600000000:1700000000:\n";
    assert_eq!(parse_inventory(text).unwrap_err(), Error::StructuralParse);

    // A dangling subordinate record at the end of the stream.
    let text = format!(
        "pub:u:255:22:AAAA:1600000000:1700000000:\n\
         fpr:::::::::{a}:\n\
         sub:u:255:22:BBBB:1600000000:1700086400:\n"
    );
    assert_eq!(parse_inventory(&text).unwrap_err(), Error::StructuralParse);
}

#[test]
fn truncated_line_is_structural_failure() {
    let a = fp('A');
    // The primary record stops before the expiry column.
    let text = format!("pub:u:255:22:AAAA\nfpr:::::::::{a}:\n");
    assert_eq!(parse_inventory(&text).unwrap_err(), Error::StructuralParse);

    // The fingerprint record stops before the fingerprint column.
    let text = "pub:u:255:22:AAAA:1600000000:1700000000:\nfpr:AAAA\n";
    assert_eq!(parse_inventory(text).unwrap_err(), Error::StructuralParse);
}

#[test]
fn invalid_fingerprint_field_is_structural_failure() {
    let text = "pub:u:255:22:AAAA:1600000000:1700000000:\nfpr:::::::::not-a-fingerprint:\n";
    assert_eq!(parse_inventory(text).unwrap_err(), Error::StructuralParse);
}

#[test]
fn expiry_field_variants() {
    assert_eq!(parse_expiry(&b"".to_vec()), None);
    assert_eq!(parse_expiry(&b"0".to_vec()), Some(0));
    assert_eq!(parse_expiry(&b"1700000000".to_vec()), Some(1700000000));
    assert_eq!(parse_expiry(&b"18446744073709551615".to_vec()), Some(u64::MAX));
    // One past the largest 64-bit count does not fit.
    assert_eq!(parse_expiry(&b"18446744073709551616".to_vec()), None);
    assert_eq!(parse_expiry(&b"none".to_vec()), None);
    assert_eq!(parse_expiry(&b"17x0".to_vec()), None);
}

#[test]
fn irrelevant_records_are_discarded() {
    let a = fp('A');
    // Only tru, uid and sig records: nothing relevant, empty inventory.
    let text = "tru::1:1700000000:0:3:1:5\nuid:u::::1600000000::H::X::::::::::0:\n";
    let status = parse_inventory(text).expect("irrelevant records alone are an empty inventory");
    assert_eq!(status.main_keys.len(), 0);

    // Irrelevant records between a key record and its fingerprint record
    // do not break the pairing.
    let text = format!(
        "pub:u:255:22:AAAA:1600000000:1700000000:\n\
         uid:u::::1600000000::H::X::::::::::0:\n\
         fpr:::::::::{a}:\n"
    );
    let status = parse_inventory(&text).expect("interleaved uid records must not break pairing");
    assert_eq!(status.main_keys.len(), 1);
    assert_eq!(status.main_keys[0].status.fingerprint.as_str(), a);
}

#[test]
fn error_messages_name_the_failure() {
    assert_eq!(
        Error::InvalidIdentifier.message(),
        "Key ID must be exactly 40 uppercase hex characters."
    );
    assert_eq!(Error::StructuralParse.message(), "Failed to parse GPG key structure");
    assert_eq!(Error::Subprocess.message(), "GPG command failed");
    assert_eq!(Error::Clock.message(), "Failed to read the system clock");
    assert_eq!(Error::Encoding.message(), "GPG output was not valid UTF-8");
}
