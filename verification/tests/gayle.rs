use machine_core::gayle::{GAYLE_BASE, GAYLE_ID_BASE, GAYLE_IRQ_IDE, Gayle, reg, status};

#[test]
fn responds_to_its_two_windows_only() {
    assert!(Gayle::responds_to(GAYLE_BASE));
    assert!(Gayle::responds_to(reg::IDE_STATUS));
    assert!(Gayle::responds_to(GAYLE_ID_BASE));
    assert!(
        !Gayle::responds_to(0x00DF_F000),
        "custom chips are not Gayle"
    );
    assert!(!Gayle::responds_to(0x00BF_E001), "CIA-A is not Gayle");
}

#[test]
fn reports_ready_out_of_reset() {
    let g = Gayle::new();
    assert_eq!(g.status & status::DRDY, status::DRDY);
    assert_eq!(g.status & status::BSY, 0, "not busy with nothing to do");
}

#[test]
fn no_interrupt_until_both_request_and_enable() {
    let mut g = Gayle::new();
    g.intreq = GAYLE_IRQ_IDE;
    assert!(!g.irq_pending(), "request alone is not enough");
    g.intena = GAYLE_IRQ_IDE;
    assert!(g.irq_pending());
}
