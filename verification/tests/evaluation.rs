use gpg_expire_warner::select_expiring;
use gpg_expire_warner::status::parse_inventory;
use gpg_expire_warner::GpgKeyStatus;
use gpg_expire_warner::KeyId;

const DAY: u64 = 86400;
const NOW: u64 = 1700000000;

fn fp(c: char) -> String {
    let mut s = String::new();
    for _ in 0..40 {
        s.push(c);
    }
    s
}

fn key(c: char, expires: Option<u64>) -> GpgKeyStatus {
    GpgKeyStatus { fingerprint: KeyId::parse(&fp(c)).unwrap(), expires }
}

#[test]
fn expire_days_at_reference_time_is_zero() {
    assert_eq!(key('A', Some(NOW)).expire_days(NOW), Some(0));
}

#[test]
fn expire_days_truncates_toward_zero() {
    // Expired one second ago: still zero days, not minus one.
    assert_eq!(key('A', Some(NOW - 1)).expire_days(NOW), Some(0));
    // Expired one second less than a day ago: still zero days.
    assert_eq!(key('A', Some(NOW - DAY + 1)).expire_days(NOW), Some(0));
    // Expired a day and a second ago: minus one day.
    assert_eq!(key('A', Some(NOW - DAY - 1)).expire_days(NOW), Some(-1));
    // Due in one second less than a day: zero days.
    assert_eq!(key('A', Some(NOW + DAY - 1)).expire_days(NOW), Some(0));
}

#[test]
fn expire_days_counts_whole_days() {
    assert_eq!(key('A', Some(NOW + DAY)).expire_days(NOW), Some(1));
    assert_eq!(key('A', Some(NOW + 5 * DAY)).expire_days(NOW), Some(5));
    assert_eq!(key('A', Some(NOW + 365 * DAY)).expire_days(NOW), Some(365));
}

#[test]
fn expire_days_without_expiry_is_none() {
    assert_eq!(key('A', None).expire_days(NOW), None);
}

fn two_key_inventory_text() -> String {
    // One primary expiring in 10 days with one subordinate expiring in 1 day.
    let a = fp('A');
    let b = fp('B');
    let pe = NOW + 10 * DAY;
    let se = NOW + DAY;
    format!(
        "pub:u:255:22:AAAA:1600000000:{pe}:\n\
         fpr:::::::::{a}:\n\
         sub:u:255:22:BBBB:1600000000:{se}:\n\
         fpr:::::::::{b}:\n"
    )
}

#[test]
fn selection_respects_the_warning_window() {
    let status = parse_inventory(&two_key_inventory_text()).unwrap();
    let targets = vec![
        KeyId::parse(&fp('A')).unwrap(),
        KeyId::parse(&fp('B')).unwrap(),
    ];

    let flagged = select_expiring(&status, &targets, NOW, 2);
    assert_eq!(flagged.len(), 1);
    assert_eq!(flagged[0].0.as_str(), fp('B'));
    assert_eq!(flagged[0].1, 1);

    let flagged = select_expiring(&status, &targets, NOW, 10);
    assert_eq!(flagged.len(), 2);
    assert_eq!(flagged[0].0.as_str(), fp('A'));
    assert_eq!(flagged[0].1, 10);
    assert_eq!(flagged[1].0.as_str(), fp('B'));
    assert_eq!(flagged[1].1, 1);
}

#[test]
fn selection_ignores_keys_that_are_not_targets() {
    let status = parse_inventory(&two_key_inventory_text()).unwrap();
    let targets = vec![KeyId::parse(&fp('B')).unwrap()];
    let flagged = select_expiring(&status, &targets, NOW, 10);
    assert_eq!(flagged.len(), 1);
    assert_eq!(flagged[0].0.as_str(), fp('B'));
}

#[test]
fn absent_target_never_appears_and_never_fails() {
    let status = parse_inventory(&two_key_inventory_text()).unwrap();
    let targets = vec![
        KeyId::parse(&fp('B')).unwrap(),
        // No key in the inventory carries this fingerprint.
        KeyId::parse(&fp('F')).unwrap(),
    ];
    let flagged = select_expiring(&status, &targets, NOW, 10);
    assert_eq!(flagged.len(), 1);
    assert_eq!(flagged[0].0.as_str(), fp('B'));
}

#[test]
fn end_to_end_scenario() {
    // One primary without expiry and three subordinates expiring in 1, 2
    // and 5 days; targets are the first and third subordinates; window of
    // 2 days flags only the first.
    let a = fp('A');
    let b = fp('B');
    let c = fp('C');
    let d = fp('D');
    let e1 = NOW + DAY;
    let e2 = NOW + 2 * DAY;
    let e3 = NOW + 5 * DAY;
    let text = format!(
        "pub:u:255:22:AAAA:1600000000::\n\
         fpr:::::::::{a}:\n\
         sub:u:255:22:BBBB:1600000000:{e1}:\n\
         fpr:::::::::{b}:\n\
         sub:u:255:22:CCCC:1600000000:{e2}:\n\
         fpr:::::::::{c}:\n\
         sub:u:255:22:DDDD:1600000000:{e3}:\n\
         fpr:::::::::{d}:\n"
    );
    let status = parse_inventory(&text).unwrap();
    let targets = vec![
        KeyId::parse(&b).unwrap(),
        KeyId::parse(&d).unwrap(),
    ];
    let flagged = select_expiring(&status, &targets, NOW, 2);
    assert_eq!(flagged.len(), 1);
    assert_eq!(flagged[0].0.as_str(), b);
    assert_eq!(flagged[0].1, 1);
}

#[test]
fn never_expiring_target_is_not_flagged() {
    let a = fp('A');
    let text = format!("pub:u:255:22:AAAA:1600000000::\nfpr:::::::::{a}:\n");
    let status = parse_inventory(&text).unwrap();
    let targets = vec![KeyId::parse(&a).unwrap()];
    let flagged = select_expiring(&status, &targets, NOW, 1000000);
    assert_eq!(flagged.len(), 0);
}

#[test]
fn expired_keys_are_flagged_with_negative_days() {
    let a = fp('A');
    let expired = NOW - 3 * DAY;
    let text = format!("pub:u:255:22:AAAA:1600000000:{expired}:\nfpr:::::::::{a}:\n");
    let status = parse_inventory(&text).unwrap();
    let targets = vec![KeyId::parse(&a).unwrap()];
    let flagged = select_expiring(&status, &targets, NOW, 2);
    assert_eq!(flagged.len(), 1);
    assert_eq!(flagged[0].1, -3);
}
