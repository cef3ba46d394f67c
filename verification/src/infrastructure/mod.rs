pub mod clock;
pub mod memory;
pub mod solana_codec;
