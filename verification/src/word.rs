use vstd::prelude::*;

verus! {

/// Size of one transferred element, as the channel's data-width field knows it.
#[derive(Debug, Copy, Clone, PartialEq, Eq, Structural)]
pub enum WordSize {
    /// 8-bit elements.
    OneByte,
    /// 16-bit elements.
    TwoBytes,
    /// 32-bit elements.
    FourBytes,
}

impl WordSize {
    /// Number of bytes one element occupies.
    pub fn bytes(&self) -> (r: usize)
        ensures
            r == self.bytes_spec(),
    {
        match self {
            WordSize::OneByte => 1,
            WordSize::TwoBytes => 2,
            WordSize::FourBytes => 4,
        }
    }

    /// What `bytes` returns: 1, 2 or 4.
    pub open spec fn bytes_spec(&self) -> usize {
        match self {
            WordSize::OneByte => 1usize,
            WordSize::TwoBytes => 2usize,
            WordSize::FourBytes => 4usize,
        }
    }
}

/// An element type a channel can move: a byte, a half-word or a word.
pub trait Word: Copy {
    /// The data-width field value for this element type.
    spec fn size_spec() -> WordSize;

    /// The size of this element type.
    fn size() -> (r: WordSize)
        ensures
            r == Self::size_spec(),
    ;
}

impl Word for u8 {
    open spec fn size_spec() -> WordSize {
        WordSize::OneByte
    }

    fn size() -> WordSize {
        WordSize::OneByte
    }
}

impl Word for u16 {
    open spec fn size_spec() -> WordSize {
        WordSize::TwoBytes
    }

    fn size() -> WordSize {
        WordSize::TwoBytes
    }
}

impl Word for u32 {
    open spec fn size_spec() -> WordSize {
        WordSize::FourBytes
    }

    fn size() -> WordSize {
        WordSize::FourBytes
    }
}

} // verus!
