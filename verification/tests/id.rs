use agent::id::{
    accepts, ascending, create, create_from, descending, timestamp_from, IdGenerator, Prefix,
};

#[test]
fn test_prefix_strings() {
    assert_eq!(Prefix::Session.as_str(), "ses");
    assert_eq!(Prefix::Message.as_str(), "msg");
    assert_eq!(Prefix::Permission.as_str(), "per");
    assert_eq!(Prefix::User.as_str(), "usr");
    assert_eq!(Prefix::Part.as_str(), "prt");
}

#[test]
fn test_create_ascending() {
    let mut generator = IdGenerator::new();
    let id1 = ascending(&mut generator, Prefix::Session, None);
    let id2 = ascending(&mut generator, Prefix::Session, None);

    assert!(id1.starts_with("ses_"));
    assert!(id2.starts_with("ses_"));
    assert_ne!(id1, id2);
    assert!(id1 < id2);
}

#[test]
fn test_create_descending() {
    let mut generator = IdGenerator::new();
    let id1 = descending(&mut generator, Prefix::Message, None);
    let id2 = descending(&mut generator, Prefix::Message, None);

    assert!(id1.starts_with("msg_"));
    assert!(id2.starts_with("msg_"));
    assert_ne!(id1, id2);
    assert!(id1 > id2);
}

#[test]
fn test_id_length() {
    let mut generator = IdGenerator::new();
    let id = ascending(&mut generator, Prefix::Part, None);
    assert_eq!(id.len(), 4 + 26);
}

#[test]
fn test_given_id_passthrough() {
    let mut generator = IdGenerator::new();
    let given = "ses_abc123def456";
    let id = ascending(&mut generator, Prefix::Session, Some(given));
    assert_eq!(id, given);
}

#[test]
fn given_id_is_accepted_by_its_prefix_only() {
    assert!(accepts(Prefix::Session, "ses_abc123def456"));
    assert!(accepts(Prefix::Session, "ses"));
    assert!(!accepts(Prefix::Session, "msg_wrong_prefix"));
    assert!(!accepts(Prefix::Session, "se"));
    assert!(!accepts(Prefix::Session, ""));
}

#[test]
fn given_id_passes_through_descending_too() {
    let mut generator = IdGenerator::new();
    let id = descending(&mut generator, Prefix::User, Some("usr_given"));
    assert_eq!(id, "usr_given");
}

#[test]
fn create_from_renders_time_and_counter_in_hex() {
    let suffix: Vec<char> = "ABCDEFGHIJKLMN".chars().collect();
    let mut generator = IdGenerator::new();
    // 1 * 4096 + 1 = 0x1001
    let id = create_from(&mut generator, Prefix::Session, false, 1, &suffix);
    assert_eq!(id, "ses_000000001001ABCDEFGHIJKLMN");
    // the same millisecond again: the counter goes up
    let id = create_from(&mut generator, Prefix::Session, false, 1, &suffix);
    assert_eq!(id, "ses_000000001002ABCDEFGHIJKLMN");
    // another millisecond: the counter starts again
    let id = create_from(&mut generator, Prefix::Message, false, 0xabc, &suffix);
    assert_eq!(id, "msg_000000abc001ABCDEFGHIJKLMN");
}

#[test]
fn create_from_complements_descending_identifiers() {
    let suffix: Vec<char> = "00000000000000".chars().collect();
    let mut generator = IdGenerator::new();
    // !(0x1001) in 48 bits
    let id = create_from(&mut generator, Prefix::Part, true, 1, &suffix);
    assert_eq!(id, "prt_ffffffffeffe00000000000000");
}

#[test]
fn create_from_keeps_the_low_48_bits() {
    let suffix: Vec<char> = "00000000000000".chars().collect();
    let mut generator = IdGenerator::new();
    // 0x123_4567_89ab * 4096 + 1 is 0x123456789ab001: the two top digits are lost
    let id = create_from(&mut generator, Prefix::Session, false, 0x123_4567_89ab, &suffix);
    assert_eq!(id, "ses_3456789ab00100000000000000");
}

#[test]
fn create_uses_the_given_timestamp() {
    let mut generator = IdGenerator::new();
    let id = create(&mut generator, Prefix::Session, false, Some(0x10));
    assert!(id.starts_with("ses_000000010001"));
    assert_eq!(id.len(), 30);
    assert!(id[16..].chars().all(|c| c.is_ascii_alphanumeric()));
}

#[test]
fn ids_of_one_generator_rise_in_order() {
    let mut generator = IdGenerator::new();
    let mut last = create(&mut generator, Prefix::Session, false, Some(1_700_000_000_000));
    for step in 0..200u64 {
        let next = create(
            &mut generator,
            Prefix::Session,
            false,
            Some(1_700_000_000_000 + step / 50),
        );
        assert!(last < next);
        last = next;
    }
}

#[test]
fn descending_ids_of_one_generator_fall_in_order() {
    let mut generator = IdGenerator::new();
    let mut last = create(&mut generator, Prefix::Message, true, Some(1_700_000_000_000));
    for step in 0..200u64 {
        let next = create(
            &mut generator,
            Prefix::Message,
            true,
            Some(1_700_000_000_000 + step / 50),
        );
        assert!(last > next);
        last = next;
    }
}

#[test]
fn a_clock_before_the_epoch_counts_as_zero() {
    assert_eq!(timestamp_from(Some(1_700_000_000_000)), 1_700_000_000_000);
    assert_eq!(timestamp_from(Some(0)), 0);
    assert_eq!(timestamp_from(Some(u64::MAX)), u64::MAX);
    assert_eq!(timestamp_from(None), 0);
}
