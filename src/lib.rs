//! Focus-history tracking and rule-based focus resolution for a tiling
//! window manager.
//!
//! The library holds the whole decision logic of the daemon: the identity of
//! a window, the recency list of focused windows, the index of live windows
//! by identity, the rules and the key map. Every operation works on plain
//! values and hands back the window-manager commands it wants issued, so that
//! the caller only performs the I/O.
use vstd::prelude::*;

pub mod history;
pub mod identity;
pub mod index;
pub mod laws;
pub mod map_manager;
pub mod rule;
pub mod state;

pub use history::{Recency, LEN};
pub use identity::{ConId, Criteria, IdentityView, NodeKind, WinNode, WindowProps};
pub use index::WindowIndex;
pub use map_manager::{KeyC, Keymap, MapManager};
pub use rule::{Rule, RuleSet};
pub use state::{ChangeUp, ChangeUpConfig, ChangeUpError, FocusMode, WindowChange, WindowEvent};
