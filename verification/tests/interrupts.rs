use gbemu::interrupts::Interrupts;

#[test]
fn new_interrupts_are_clear() {
    let i = Interrupts::new();
    assert_eq!(i.get_interrupt(), 0);
}
