use vstd::prelude::*;

verus! {

/// Direction of a transfer, seen from the memory side.
#[derive(Debug, Copy, Clone, PartialEq, Eq, Structural)]
pub enum Dir {
    /// Read from memory, write to a peripheral register.
    MemoryToPeripheral,
    /// Read from a peripheral register, write to memory.
    PeripheralToMemory,
}

/// Defines the priority of a DMA transfer.
#[derive(Debug, Copy, Clone, PartialEq, Eq, Structural)]
pub enum TransferPriority {
    /// Low priority with low weight.
    LowWithLowWeight,
    /// Low priority with medium weight.
    LowWithMidWeight,
    /// Low priority with high weight.
    LowWithHighWeigt,
    /// High priority.
    High,
}

/// Polarity of the transfer trigger.
#[derive(Debug, Copy, Clone, PartialEq, Eq, Structural)]
pub enum TriggerPolarity {
    /// No trigger (masked trigger event).
    Disabled,
    /// Trigger on the rising edge.
    RisingEdge,
    /// Trigger on the falling edge.
    FallingEdge,
}

/// Trigger mode.
#[derive(Debug, Copy, Clone, PartialEq, Eq, Structural)]
pub enum TriggerMode {
    /// Trigger at block level: the first burst read of each
    /// block transfer is conditioned by one hit trigger.
    Block,
    /// Same as block level trigger channel but at 2D/repeated block level.
    Block2D,
    /// At link level: a linked-list item transfer is conditioned by one hit
    /// trigger.
    LinkedListItem,
    /// Trigger at programmed burst level: each burst read is conditioned by
    /// one hit trigger.
    Burst,
}

/// Transfer options for one channel.
#[derive(Debug, Copy, Clone, PartialEq, Eq, Structural)]
#[non_exhaustive]
pub struct TransferOptions {
    /// Priority of the transfer.
    pub priority: TransferPriority,
    /// Trigger source for the transfer. The number of the source depends on
    /// the selected controller and is listed in its reference manual.
    pub trigger_source: u8,
    /// The trigger mode for the transfer.
    pub trigger_mode: TriggerMode,
    /// The transfer is triggered on the selected edge polarity.
    /// When the polarity is disabled, the trigger is masked.
    pub trigger_polarity: TriggerPolarity,
    /// Amount of data to transfer in a single burst from the source.
    pub src_burst_len: u8,
    /// Amount of data to transfer in a single burst to the destination.
    pub dst_burst_len: u8,
}

impl TransferOptions {
    /// Both burst lengths lie in the range the burst-length field can hold.
    pub open spec fn bursts_valid(&self) -> bool {
        &&& 1 <= self.src_burst_len <= 63
        &&& 1 <= self.dst_burst_len <= 63
    }

    /// Check the burst lengths; a configuration that fails this check must
    /// not reach the register-programming path.
    pub fn check_bursts(&self) -> (r: bool)
        ensures
            r == self.bursts_valid(),
    {
        1 <= self.src_burst_len && self.src_burst_len <= 63 && 1 <= self.dst_burst_len
            && self.dst_burst_len <= 63
    }
}

impl Default for TransferOptions {
    /// A single-element burst without a hardware trigger, at the lowest
    /// priority tier.
    fn default() -> (r: Self)
        ensures
            r.priority == TransferPriority::LowWithLowWeight,
            r.trigger_source == 0,
            r.trigger_mode == TriggerMode::Block,
            r.trigger_polarity == TriggerPolarity::Disabled,
            r.src_burst_len == 1,
            r.dst_burst_len == 1,
            r.bursts_valid(),
    {
        Self {
            priority: TransferPriority::LowWithLowWeight,
            trigger_source: 0,
            trigger_mode: TriggerMode::Block,
            trigger_polarity: TriggerPolarity::Disabled,
            src_burst_len: 1,
            dst_burst_len: 1,
        }
    }
}

} // verus!
