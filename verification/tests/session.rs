use galaxybook_sound::pipewire::PipeWireNode;
use galaxybook_sound::session::{
    active_preset_status, engine_status, session_needs_default_sink, ActivePreset, EngineStatus,
};
use galaxybook_sound::{collect_sound_session_state, SoundSessionState};

fn node(name: &str, description: Option<&str>, class: &str) -> PipeWireNode {
    PipeWireNode {
        node_name: Some(name.to_string()),
        node_description: description.map(str::to_string),
        media_class: Some(class.to_string()),
        device_profile_description: None,
    }
}

#[test]
fn unavailable_pipewire_reports_nothing_active() {
    let nodes = vec![node("galaxybook_sound_sink", None, "Audio/Sink")];
    let state = collect_sound_session_state(false, true, &nodes, None, Some("p".to_string()));
    assert_eq!(
        state,
        SoundSessionState {
            pipewire_available: false,
            config_present: true,
            filter_active: false,
            active_profile_name: None,
            target_output: None,
        }
    );
    assert_eq!(engine_status(&state), EngineStatus::PipeWireUnavailable);
    assert_eq!(active_preset_status(&state), ActivePreset::SavedNotActive);
}

#[test]
fn active_filter_reports_preset_and_speaker() {
    let nodes = vec![
        node("alsa_output.x.HiFi__Speaker__sink", Some("Notebook Speaker"), "Audio/Sink"),
        node("galaxybook_sound_sink", Some("Galaxy Book Sound"), "Audio/Sink"),
    ];
    assert!(!session_needs_default_sink(&nodes));
    let state = collect_sound_session_state(
        true,
        true,
        &nodes,
        None,
        Some("Galaxy Book Sound - Cinema".to_string()),
    );
    assert!(state.filter_active);
    assert_eq!(state.active_profile_name, Some("Galaxy Book Sound - Cinema".to_string()));
    assert_eq!(state.target_output, Some("Notebook Speaker".to_string()));
    assert_eq!(
        engine_status(&state),
        EngineStatus::ActiveOnOutput("Notebook Speaker".to_string())
    );
    assert_eq!(
        active_preset_status(&state),
        ActivePreset::Active("Galaxy Book Sound - Cinema".to_string())
    );
}

#[test]
fn inactive_filter_falls_back_to_default_description() {
    let nodes = vec![node("hdmi", Some("HDMI"), "Audio/Sink")];
    assert!(session_needs_default_sink(&nodes));
    let inspect = "  * node.name = \"other\"\n    device.description = \"Built-in Audio\"\n";
    let state = collect_sound_session_state(
        true,
        false,
        &nodes,
        Some(inspect.to_string()),
        Some("ignored".to_string()),
    );
    assert!(!state.filter_active);
    assert_eq!(state.active_profile_name, None);
    assert_eq!(state.target_output, Some("Built-in Audio".to_string()));
    assert_eq!(engine_status(&state), EngineStatus::NotApplied);
    assert_eq!(active_preset_status(&state), ActivePreset::NoneActive);

    let named = "  * node.name = \"hdmi\"\n";
    let state = collect_sound_session_state(true, true, &nodes, Some(named.to_string()), None);
    assert_eq!(state.target_output, Some("HDMI".to_string()));
    assert_eq!(engine_status(&state), EngineStatus::ConfigPending);
}

#[test]
fn default_state_and_unknown_output() {
    let state = SoundSessionState::default();
    assert!(!state.pipewire_available && !state.config_present && !state.filter_active);
    let nodes = vec![node("galaxybook_sound_sink", None, "Audio/Sink")];
    let state = collect_sound_session_state(true, false, &nodes, None, None);
    assert!(state.filter_active);
    assert_eq!(state.target_output, None);
    assert_eq!(engine_status(&state), EngineStatus::Active);
}

#[test]
fn inspect_output_is_ignored_when_speaker_is_labelled() {
    let nodes = vec![node("alsa_output.x.HiFi__Speaker__sink", Some("Notebook Speaker"), "Audio/Sink")];
    let without = collect_sound_session_state(true, false, &nodes, None, None);
    let with = collect_sound_session_state(
        true,
        false,
        &nodes,
        Some("  * node.description = \"Other\"\n".to_string()),
        Some("unused".to_string()),
    );
    assert_eq!(without, with);
    assert_eq!(with.target_output, Some("Notebook Speaker".to_string()));
}
