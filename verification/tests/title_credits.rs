use lib::level_editor::title_credits::{
    add_demo_step, add_stripe_byte, remove_demo_step, remove_stripe_byte, stripe_ends_with_ff, DemoStep,
};

#[test]
fn demo_steps_are_added_while_the_slot_has_room() {
    let mut steps = vec![DemoStep { buttons: 0x81, duration: 4 }];
    // One step takes 3 bytes with the end marker; a second needs 5.
    assert!(!add_demo_step(&mut steps, 4));
    assert_eq!(steps.len(), 1);
    assert!(add_demo_step(&mut steps, 5));
    assert_eq!(steps[1], DemoStep { buttons: 0, duration: 0x10 });
    assert!(remove_demo_step(&mut steps));
    assert!(remove_demo_step(&mut steps));
    assert!(!remove_demo_step(&mut steps));
    assert!(steps.is_empty());
}

#[test]
fn stripe_bytes_go_before_the_end_marker() {
    let mut stripe = vec![0x10, 0xFF];
    assert!(stripe_ends_with_ff(&stripe));
    assert!(add_stripe_byte(&mut stripe, 3));
    assert_eq!(stripe, vec![0x10, 0xFC, 0xFF]);
    assert!(!add_stripe_byte(&mut stripe, 3));
    assert!(remove_stripe_byte(&mut stripe));
    assert!(remove_stripe_byte(&mut stripe));
    assert_eq!(stripe, vec![0xFF]);
    assert!(!remove_stripe_byte(&mut stripe));
    let mut empty: Vec<u8> = vec![];
    assert!(!stripe_ends_with_ff(&empty));
    assert!(add_stripe_byte(&mut empty, 1));
    assert_eq!(empty, vec![0xFC]);
    assert!(!stripe_ends_with_ff(&vec![0xFF, 0x00]));
}
