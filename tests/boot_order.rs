use key_enroller::boot_order::{
    decode_boot_order, encode_boot_order, insert_boot_entry, next_slot_step, updated_boot_order,
    Placement, SlotStep, FIRST_BOOT_SLOT,
};

#[test]
fn append_moves_existing_entry_to_end() {
    let r = insert_boot_entry(&[3, 1, 4, 1, 5], 1, Placement::Append);
    assert_eq!(r, vec![3, 4, 5, 1]);
    assert_eq!(r.iter().filter(|&&x| x == 1).count(), 1);
}

#[test]
fn prepend_moves_existing_entry_to_front() {
    let r = insert_boot_entry(&[3, 1, 4, 1, 5], 1, Placement::Prepend);
    assert_eq!(r, vec![1, 3, 4, 5]);
    assert_eq!(r.iter().filter(|&&x| x == 1).count(), 1);
}

#[test]
fn insert_into_empty_order() {
    assert_eq!(insert_boot_entry(&[], 7, Placement::Append), vec![7]);
    assert_eq!(insert_boot_entry(&[], 7, Placement::Prepend), vec![7]);
}

#[test]
fn insert_new_entry_keeps_others() {
    assert_eq!(insert_boot_entry(&[2, 0], 9, Placement::Append), vec![2, 0, 9]);
    assert_eq!(insert_boot_entry(&[2, 0], 9, Placement::Prepend), vec![9, 2, 0]);
}

#[test]
fn decode_little_endian_and_ignore_odd_byte() {
    assert_eq!(decode_boot_order(&[0x01, 0x00, 0x34, 0x12, 0xff]), vec![0x0001, 0x1234]);
    assert_eq!(decode_boot_order(&[]), Vec::<u16>::new());
}

#[test]
fn encode_little_endian() {
    assert_eq!(encode_boot_order(&[0x0001, 0x1234]), vec![0x01, 0x00, 0x34, 0x12]);
}

#[test]
fn absent_boot_order_becomes_single_entry() {
    assert_eq!(updated_boot_order(None, 0x0003, Placement::Append), vec![0x03, 0x00]);
}

#[test]
fn existing_boot_order_updated() {
    let existing = [0x02, 0x00, 0x01, 0x00, 0x00, 0x00];
    assert_eq!(
        updated_boot_order(Some(&existing), 1, Placement::Append),
        vec![0x02, 0x00, 0x00, 0x00, 0x01, 0x00]
    );
    assert_eq!(
        updated_boot_order(Some(&existing), 1, Placement::Prepend),
        vec![0x01, 0x00, 0x02, 0x00, 0x00, 0x00]
    );
}

#[test]
fn slot_search_steps() {
    assert_eq!(FIRST_BOOT_SLOT, 1);
    assert_eq!(next_slot_step(1, false), SlotStep::Use(1));
    assert_eq!(next_slot_step(1, true), SlotStep::Probe(2));
    assert_eq!(next_slot_step(0x00ff, true), SlotStep::Probe(0x0100));
    assert_eq!(next_slot_step(0xffff, true), SlotStep::Exhausted);
}
