//! An inline, fuzzy-filtered single-selection list picker for terminal tools,
//! with the small amount of git-command plumbing that its front end needs.
//!
//! - `ranking`: fuzzy match scores and the ranking order of candidates.
//! - `list`: the candidate list, its ranking, and handing back the choice.
//! - `picker`: query editing, selection and scrolling, key by key.
//! - `session`: a running pick, kept consistent between key presses.
//! - `viewport`: the geometry of the reserved terminal region.
//! - `git`, `cli`: what the command-line front end decides around git.

pub mod cli;
pub mod git;
pub mod list;
pub mod picker;
pub mod ranking;
pub mod session;
pub mod viewport;

pub use cli::{ArgCommand, MainArgs, SwitchError};
pub use git::{GitContext, GitError, GitOutput};
pub use list::{FilterableList, PickError};
pub use picker::{Action, KeyCode, KeyPress, PickerState};
pub use ranking::RankedEntry;
pub use session::{FrameRow, Session};
pub use viewport::ViewportGeometry;
