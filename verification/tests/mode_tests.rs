//! Option defaults and the timer mode types.

use dma_core::{
    CountingMode, OutputPolarity, PulseWidthPrescaler, TransferOptions, TransferPriority,
    TriggerMode, TriggerPolarity, Word, WordSize,
};

#[test]
fn transfer_options_default() {
    let o = TransferOptions::default();
    assert_eq!(o.priority, TransferPriority::LowWithLowWeight);
    assert_eq!(o.trigger_source, 0);
    assert_eq!(o.trigger_mode, TriggerMode::Block);
    assert_eq!(o.trigger_polarity, TriggerPolarity::Disabled);
    assert_eq!(o.src_burst_len, 1);
    assert_eq!(o.dst_burst_len, 1);
}

#[test]
fn word_sizes() {
    assert_eq!(WordSize::OneByte.bytes(), 1);
    assert_eq!(WordSize::TwoBytes.bytes(), 2);
    assert_eq!(WordSize::FourBytes.bytes(), 4);
    assert_eq!(<u8 as Word>::size(), WordSize::OneByte);
    assert_eq!(<u16 as Word>::size(), WordSize::TwoBytes);
    assert_eq!(<u32 as Word>::size(), WordSize::FourBytes);
}

#[test]
fn counting_mode_alignment() {
    assert!(CountingMode::EdgeAlignedUp.is_edge_aligned());
    assert!(CountingMode::EdgeAlignedDown.is_edge_aligned());
    assert!(!CountingMode::CenterAlignedDownInterrupts.is_edge_aligned());
    assert!(CountingMode::CenterAlignedDownInterrupts.is_center_aligned());
    assert!(CountingMode::CenterAlignedUpInterrupts.is_center_aligned());
    assert!(CountingMode::CenterAlignedBothInterrupts.is_center_aligned());
    assert!(!CountingMode::EdgeAlignedUp.is_center_aligned());
    assert_eq!(CountingMode::default(), CountingMode::EdgeAlignedUp);
}

#[test]
fn output_polarity_flag() {
    assert!(!OutputPolarity::ActiveHigh.to_flag());
    assert!(OutputPolarity::ActiveLow.to_flag());
}

#[test]
fn pulse_width_prescaler_fields() {
    assert_eq!(PulseWidthPrescaler::Div1.to_field(), 0);
    assert_eq!(PulseWidthPrescaler::Div8.to_field(), 3);
    assert_eq!(PulseWidthPrescaler::Div128.to_field(), 7);
    for v in 0..8u8 {
        assert_eq!(PulseWidthPrescaler::from_field(v).to_field(), v);
    }
}
