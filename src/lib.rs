//! Search for Ethereum keypairs whose checksummed address shows a chosen
//! pattern at both ends.

pub mod cancel;
pub mod checksum;
pub mod pattern;
pub mod primitives;
pub mod record;
pub mod search;
pub mod text;

pub use cancel::{cancel_generation, get_cancel_flag, reset_cancel_flag, CancelRegistry};
pub use checksum::to_checksum_address;
pub use pattern::PatternPolicy;
pub use record::{csv_header, wallet_file_name, wallet_record_line};
pub use search::{derive_address, ProgressStats, SearchError, SearchState, StepReport, Wallet};
