//! Verified core of a PipeWire/WirePlumber sound panel: audio profiles, the
//! filter-chain configuration text, parsers for `pw-cli`, `wpctl` and `dnf`
//! output, and the decisions taken on what the audio session and the
//! package manager report.

pub mod commands;
pub mod filter_chain;
pub mod i18n;
pub mod pipewire;
pub mod profile;
pub mod session;
pub mod text;
pub mod updates;

pub use filter_chain::{build_pipewire_filter_config, escape_spa_string, run_smoke_test, EQUALIZER_FREQUENCIES_HZ};
pub use i18n::{apply_replacements, tr_mark};
pub use profile::AudioProfile;
pub use session::{collect_sound_session_state, SoundSessionState};
pub use updates::parse_dnf_check_update_package_names;

use vstd::prelude::*;

verus! {

/// Application identifier.
pub const APP_ID: &'static str = "com.caioregis.GalaxyBookSound";

/// Human-readable application name.
pub const APP_NAME: &'static str = "Galaxy Book Sound";

} // verus!
