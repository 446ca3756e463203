//! The DMA channels that receive from USARTs.

use runtime_hal::chip::Chip;
use runtime_hal::detect::{descriptor_f103, descriptor_f130};
use runtime_hal::dma::{
    install, reset_for_test, service_dma_rx, wraps, DmaRxCtx, DmaRxMap, CHCNT_OFF, CHCTL_OFF,
    CHCTL_RING, CHMADDR_OFF, CHPADDR_OFF, CH_STRIDE, CONTEXTS, DMA0_BASE, DMA_INTC, DMA_INTF,
    SELF_CHECK_SENTINEL,
};
use runtime_hal::reg::Bus;
use runtime_hal::regfile::RegisterFile;

fn contexts() -> [DmaRxCtx; CONTEXTS] {
    [DmaRxCtx::new(), DmaRxCtx::new()]
}

#[test]
fn channels_follow_the_family() {
    assert_eq!(
        DmaRxMap::usart1_rx(&Chip::from_descriptor(descriptor_f103())),
        DmaRxMap {
            base: DMA0_BASE,
            channel: 5,
            grouped: false
        }
    );
    assert_eq!(
        DmaRxMap::usart1_rx(&Chip::from_descriptor(descriptor_f130())),
        DmaRxMap {
            base: DMA0_BASE,
            channel: 4,
            grouped: true
        }
    );
    assert_eq!(
        DmaRxMap::module_rx(),
        DmaRxMap {
            base: DMA0_BASE,
            channel: 2,
            grouped: false
        }
    );
}

#[test]
fn a_ring_is_set_up_and_stopped() {
    let mut bus = RegisterFile::new();
    let map = DmaRxMap::module_rx();
    let at = |first: u32| DMA0_BASE + first + CH_STRIDE * 2;
    assert!(map.self_check(&mut bus));
    assert_eq!(bus.word(at(CHMADDR_OFF)), SELF_CHECK_SENTINEL);
    map.configure_circular(&mut bus, 0x4000_4824, 0x2000_0100, 64);
    assert_eq!(bus.word(at(CHPADDR_OFF)), 0x4000_4824);
    assert_eq!(bus.word(at(CHMADDR_OFF)), 0x2000_0100);
    assert_eq!(bus.word(at(CHCNT_OFF)), 64);
    assert_eq!(bus.word(at(CHCTL_OFF)), CHCTL_RING | 1);
    assert_eq!(CHCTL_RING, (1 << 7) | (1 << 5) | (1 << 1) | (1 << 2));
    bus.store(at(CHCNT_OFF), 0xABCD_0031);
    assert_eq!(map.remaining(&mut bus), 0x31);
    map.disable(&mut bus);
    assert_eq!(bus.word(at(CHCTL_OFF)), CHCTL_RING);
}

#[test]
fn a_full_transfer_is_counted_and_its_flags_cleared() {
    let mut bus = RegisterFile::new();
    let mut all = contexts();
    let map = DmaRxMap::module_rx();
    install(&mut all, &map, 1);
    assert_eq!(wraps(&all, 1), 0);
    bus.store(DMA0_BASE + DMA_INTF, 0xFFFF_FFFF);
    assert!(map.ftf_pending(&mut bus));
    service_dma_rx(&mut bus, &mut all[1]);
    assert_eq!(wraps(&all, 1), 1);
    assert_eq!(wraps(&all, 0), 0);
    assert_eq!(bus.word(DMA0_BASE + DMA_INTC), 0x0000_0700);
    assert!(!map.ftf_pending(&mut bus));
    assert_eq!(bus.word(DMA0_BASE + DMA_INTF), 0xFFFF_F8FF);
}

#[test]
fn a_half_transfer_is_cleared_and_not_counted() {
    let mut bus = RegisterFile::new();
    let mut all = contexts();
    install(
        &mut all,
        &DmaRxMap::usart1_rx(&Chip::from_descriptor(descriptor_f130())),
        0,
    );
    bus.store(DMA0_BASE + DMA_INTF, 1 << (4 * 4 + 2));
    service_dma_rx(&mut bus, &mut all[0]);
    assert_eq!(wraps(&all, 0), 0);
    assert_eq!(bus.word(DMA0_BASE + DMA_INTC), 1 << (4 * 4 + 2));
    assert_eq!(bus.word(DMA0_BASE + DMA_INTF), 0);
}

#[test]
fn another_channel_on_a_shared_interrupt_is_left_alone() {
    let mut bus = RegisterFile::new();
    let mut all = contexts();
    install(
        &mut all,
        &DmaRxMap::usart1_rx(&Chip::from_descriptor(descriptor_f130())),
        0,
    );
    bus.store(DMA0_BASE + DMA_INTF, 0xF << (4 * 3));
    service_dma_rx(&mut bus, &mut all[0]);
    assert_eq!(wraps(&all, 0), 0);
    assert_eq!(bus.word(DMA0_BASE + DMA_INTC), 0);
    assert_eq!(bus.word(DMA0_BASE + DMA_INTF), 0xF << (4 * 3));
}

#[test]
fn a_context_without_a_channel_does_nothing() {
    let mut bus = RegisterFile::new();
    let mut all = contexts();
    bus.store(DMA0_BASE + DMA_INTF, 0xFFFF_FFFF);
    service_dma_rx(&mut bus, &mut all[0]);
    assert_eq!(all, contexts());
    assert_eq!(bus.word(DMA0_BASE + DMA_INTC), 0);
}

#[test]
fn the_count_starts_over_after_its_range() {
    let mut bus = RegisterFile::new();
    let mut all = contexts();
    install(&mut all, &DmaRxMap::module_rx(), 1);
    all[1].wraps = u32::MAX;
    bus.store(DMA0_BASE + DMA_INTF, 1 << 9);
    service_dma_rx(&mut bus, &mut all[1]);
    assert_eq!(wraps(&all, 1), 0);
    reset_for_test(&mut all);
    assert_eq!(all, contexts());
}
