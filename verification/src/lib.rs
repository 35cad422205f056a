//! Numbered patch files that record how a fork differs from its upstream:
//! reading a patch message, planning its application to a tree, naming and
//! cleaning regenerated patches, and telling real changes from tool noise.
pub mod text;
pub mod utils;
pub mod format_patches;
pub mod regenerate_patches;
pub mod apply_patches;
