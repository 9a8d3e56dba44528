use galaxybook_sound::profile::{config_preset_name, normalize_selection};
use galaxybook_sound::AudioProfile;

#[test]
fn legacy_atmos_profile_normalizes_to_cinema_and_toggle() {
    let (selected_profile, atmos_enabled) =
        normalize_selection(AudioProfile::AtmosCompatible, false);

    assert_eq!(selected_profile, AudioProfile::Cinema);
    assert!(atmos_enabled);
}

#[test]
fn preset_name_includes_atmos_suffix_only_when_enabled() {
    assert_eq!(
        config_preset_name(AudioProfile::Music, false),
        "Galaxy Book Sound - Música"
    );
    assert_eq!(
        config_preset_name(AudioProfile::Music, true),
        "Galaxy Book Sound - Música + Atmos compatível"
    );
}

#[test]
fn normalize_keeps_current_profiles() {
    assert_eq!(normalize_selection(AudioProfile::Flat, false), (AudioProfile::Flat, false));
    assert_eq!(normalize_selection(AudioProfile::Music, true), (AudioProfile::Music, true));
    assert_eq!(normalize_selection(AudioProfile::Cinema, false), (AudioProfile::Cinema, false));
    assert_eq!(
        normalize_selection(AudioProfile::AtmosCompatible, true),
        (AudioProfile::Cinema, true)
    );
}

#[test]
fn selectable_profiles_in_order() {
    assert_eq!(
        AudioProfile::selectable(),
        [AudioProfile::Flat, AudioProfile::Music, AudioProfile::Cinema]
    );
}

#[test]
fn index_round_trip() {
    for (index, profile) in AudioProfile::selectable().iter().enumerate() {
        assert_eq!(profile.selected_index(), index as u32);
        assert_eq!(AudioProfile::from_selected_index(index as u32), *profile);
    }
    assert_eq!(AudioProfile::AtmosCompatible.selected_index(), 2);
    assert_eq!(AudioProfile::from_selected_index(3), AudioProfile::Flat);
    assert_eq!(AudioProfile::from_selected_index(u32::MAX), AudioProfile::Flat);
    assert_eq!(AudioProfile::default(), AudioProfile::Flat);
}

#[test]
fn titles_and_preset_names() {
    assert_eq!(AudioProfile::Flat.title(), "Neutro");
    assert_eq!(AudioProfile::Music.title(), "Música");
    assert_eq!(AudioProfile::Cinema.title(), "Cinema");
    assert_eq!(AudioProfile::AtmosCompatible.title(), "Cinema");
    assert_eq!(AudioProfile::Flat.preset_name(), "Galaxy Book Sound - Neutro");
    assert_eq!(AudioProfile::AtmosCompatible.preset_name(), "Galaxy Book Sound - Cinema");
    assert_eq!(AudioProfile::AtmosCompatible.normalized(), AudioProfile::Cinema);
    assert_eq!(
        config_preset_name(AudioProfile::AtmosCompatible, false),
        "Galaxy Book Sound - Cinema"
    );
}
