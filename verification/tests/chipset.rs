use machine_core::chipset::{Chipset, VPOSR_AGNUS_ID, intbit, reg};

#[test]
fn setclr_sets_and_clears() {
    let mut c = Chipset::new();
    c.write(reg::INTENA, 0x8000 | (1 << intbit::VERTB));
    assert_eq!(c.intena, 1 << intbit::VERTB);
    c.write(reg::INTENA, 1 << intbit::VERTB);
    assert_eq!(c.intena, 0);
}

#[test]
fn vposr_reports_ecs_agnus() {
    let mut c = Chipset::new();
    assert_eq!(c.read(reg::VPOSR) & 0xFF00, VPOSR_AGNUS_ID);
}

#[test]
fn no_interrupt_without_master_enable() {
    let mut c = Chipset::new();
    c.intreq = 1 << intbit::VERTB;
    c.intena = 1 << intbit::VERTB;
    assert_eq!(c.pending_level(), 0, "master enable is clear");
    c.intena |= 1 << intbit::INTEN;
    assert_eq!(c.pending_level(), 3, "VERTB is level 3");
}

#[test]
fn unimplemented_registers_read_open_bus() {
    let mut c = Chipset::new();
    assert_eq!(c.read(0x0F0), 0xFFFF);
}
