//! Clipboard history engine: content classification, a bounded and
//! deduplicated history store, the clipboard monitor's state machine, and the
//! decisions of AI transformation requests.

pub mod assistant;
pub mod detection;
pub mod history;
pub mod monitor;
pub mod pattern;
pub mod text;

pub use detection::{ClipboardContentInfo, ContentDetector, ContentKind};
pub use history::{ClipboardDatabase, ClipboardItem, StoreError, DEDUP_WINDOW_MS, MAX_ITEMS};
pub use monitor::{ClipboardMonitor, TickOutcome};
