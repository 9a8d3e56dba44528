//! The selectable equalizer base profiles and the profile part of the saved
//! configuration.

use vstd::prelude::*;

use crate::i18n::tr_mark;

verus! {

/// An equalizer base profile. `AtmosCompatible` is a profile of older
/// configurations: it stands for `Cinema` with the Atmos-like mode on.
#[derive(Clone, Copy, Debug, PartialEq, Eq, Structural)]
pub enum AudioProfile {
    Flat,
    Music,
    Cinema,
    AtmosCompatible,
}

/// The profile that `p` stands for: `Cinema` for the legacy
/// `AtmosCompatible`, `p` itself otherwise.
pub open spec fn normal_form(p: AudioProfile) -> AudioProfile {
    match p {
        AudioProfile::AtmosCompatible => AudioProfile::Cinema,
        other => other,
    }
}

/// The profiles offered for selection, in display order.
pub open spec fn selectable_profiles() -> Seq<AudioProfile> {
    seq![AudioProfile::Flat, AudioProfile::Music, AudioProfile::Cinema]
}

/// The position of `p` in the selection list.
pub open spec fn index_of(p: AudioProfile) -> u32 {
    match normal_form(p) {
        AudioProfile::Flat => 0,
        AudioProfile::Music => 1,
        _ => 2,
    }
}

/// The profile at position `i` of the selection list; `Flat` past its end.
pub open spec fn profile_at(i: u32) -> AudioProfile {
    if i < 3 {
        selectable_profiles()[i as int]
    } else {
        AudioProfile::Flat
    }
}

/// The title shown for `p`, before translation.
pub open spec fn title_of(p: AudioProfile) -> Seq<char> {
    match normal_form(p) {
        AudioProfile::Flat => "Neutro"@,
        AudioProfile::Music => "Música"@,
        _ => "Cinema"@,
    }
}

/// The name of the preset that `p` saves.
pub open spec fn preset_name_of(p: AudioProfile) -> Seq<char> {
    match normal_form(p) {
        AudioProfile::Flat => "Galaxy Book Sound - Neutro"@,
        AudioProfile::Music => "Galaxy Book Sound - Música"@,
        _ => "Galaxy Book Sound - Cinema"@,
    }
}

impl AudioProfile {
    /// The profiles offered for selection, in display order.
    pub fn selectable() -> (r: [AudioProfile; 3])
        ensures
            r@ == selectable_profiles(),
    {
        let r = [AudioProfile::Flat, AudioProfile::Music, AudioProfile::Cinema];
        assert(r@ =~= selectable_profiles());
        r
    }

    /// The profile that this one stands for.
    pub fn normalized(self) -> (r: AudioProfile)
        ensures
            r == normal_form(self),
    {
        match self {
            AudioProfile::AtmosCompatible => AudioProfile::Cinema,
            other => other,
        }
    }

    /// The title shown for this profile, marked for translation.
    pub fn title(self) -> (r: &'static str)
        ensures
            r@ == title_of(self),
    {
        match self.normalized() {
            AudioProfile::Flat => tr_mark("Neutro"),
            AudioProfile::Music => tr_mark("Música"),
            _ => tr_mark("Cinema"),
        }
    }

    /// The name of the preset that this profile saves.
    pub fn preset_name(self) -> (r: &'static str)
        ensures
            r@ == preset_name_of(self),
    {
        match self.normalized() {
            AudioProfile::Flat => "Galaxy Book Sound - Neutro",
            AudioProfile::Music => "Galaxy Book Sound - Música",
            _ => "Galaxy Book Sound - Cinema",
        }
    }

    /// The position of this profile in the selection list.
    pub fn selected_index(self) -> (r: u32)
        ensures
            r == index_of(self),
    {
        match self.normalized() {
            AudioProfile::Flat => 0,
            AudioProfile::Music => 1,
            _ => 2,
        }
    }

    /// The profile at position `index` of the selection list; the default
    /// profile (`Flat`) past its end.
    pub fn from_selected_index(index: u32) -> (r: AudioProfile)
        ensures
            r == profile_at(index),
    {
        let profiles = AudioProfile::selectable();
        if index < 3 {
            profiles[index as usize]
        } else {
            AudioProfile::default()
        }
    }
}

impl Default for AudioProfile {
    fn default() -> (r: AudioProfile)
        ensures
            r == AudioProfile::Flat,
    {
        AudioProfile::Flat
    }
}


/// The selection that a saved `(profile, Atmos-like mode)` pair stands for:
/// the legacy `AtmosCompatible` profile becomes `Cinema` with the mode on;
/// any other pair is kept.
pub open spec fn normal_selection(selected_profile: AudioProfile, atmos_enabled: bool) -> (
    AudioProfile,
    bool,
) {
    if selected_profile == AudioProfile::AtmosCompatible {
        (AudioProfile::Cinema, true)
    } else {
        (selected_profile, atmos_enabled)
    }
}

/// The preset name of a configuration: the profile's preset name, with
/// ` + Atmos compatível` after it when the Atmos-like mode is on.
pub open spec fn config_preset_name_of(selected_profile: AudioProfile, atmos_enabled: bool) -> Seq<
    char,
> {
    if atmos_enabled {
        preset_name_of(selected_profile) + " + Atmos compatível"@
    } else {
        preset_name_of(selected_profile)
    }
}

/// Brings a saved `(profile, Atmos-like mode)` pair to its current form:
/// the legacy `AtmosCompatible` profile becomes `Cinema` with the mode on.
pub fn normalize_selection(selected_profile: AudioProfile, atmos_enabled: bool) -> (r: (
    AudioProfile,
    bool,
))
    ensures
        r == normal_selection(selected_profile, atmos_enabled),
{
    if selected_profile == AudioProfile::AtmosCompatible {
        (AudioProfile::Cinema, true)
    } else {
        (selected_profile, atmos_enabled)
    }
}

/// The preset name of a configuration with this profile and Atmos-like mode.
pub fn config_preset_name(selected_profile: AudioProfile, atmos_enabled: bool) -> (r: String)
    ensures
        r@ == config_preset_name_of(selected_profile, atmos_enabled),
{
    let mut name = selected_profile.preset_name().to_owned();
    if atmos_enabled {
        name.append(" + Atmos compatível");
    }
    name
}

/// Reading a position back gives the profile it was read from, in its
/// current form; every position of the list reads back to itself, and a
/// position past the end reads as the first one.
pub proof fn law_selected_index_round_trip(p: AudioProfile, i: u32)
    ensures
        profile_at(index_of(p)) == normal_form(p),
        index_of(p) < 3,
        index_of(profile_at(i)) == (if i < 3 {
            i
        } else {
            0
        }),
{
}

/// The selectable profiles are exactly the current forms, each at its own
/// position.
pub proof fn law_selectable_profiles_are_normal(i: int)
    requires
        0 <= i < 3,
    ensures
        normal_form(selectable_profiles()[i]) == selectable_profiles()[i],
        index_of(selectable_profiles()[i]) == i,
        normal_form(AudioProfile::AtmosCompatible) == selectable_profiles()[2],
{
}

/// Normalizing never yields the legacy profile, is idempotent, keeps the
/// profile's title and preset name, and turns a legacy `AtmosCompatible`
/// selection into `Cinema` with the Atmos-like mode on; every other pair,
/// the Atmos-like mode included, is kept as saved.
pub proof fn law_normalize_selection(selected_profile: AudioProfile, atmos_enabled: bool)
    ensures
        normal_selection(selected_profile, atmos_enabled).0 != AudioProfile::AtmosCompatible,
        normal_selection(
            normal_selection(selected_profile, atmos_enabled).0,
            normal_selection(selected_profile, atmos_enabled).1,
        ) == normal_selection(selected_profile, atmos_enabled),
        normal_form(normal_selection(selected_profile, atmos_enabled).0) == normal_form(
            selected_profile,
        ),
        title_of(normal_selection(selected_profile, atmos_enabled).0) == title_of(
            selected_profile,
        ),
        preset_name_of(normal_selection(selected_profile, atmos_enabled).0) == preset_name_of(
            selected_profile,
        ),
        selected_profile == AudioProfile::AtmosCompatible ==> normal_selection(
            selected_profile,
            atmos_enabled,
        ) == (AudioProfile::Cinema, true),
        selected_profile != AudioProfile::AtmosCompatible ==> normal_selection(
            selected_profile,
            atmos_enabled,
        ) == (selected_profile, atmos_enabled),
{
}

/// The preset name always starts with the profile's preset name, and
/// carries the ` + Atmos compatível` suffix exactly when the mode is on.
pub proof fn law_preset_name_suffix(selected_profile: AudioProfile, atmos_enabled: bool)
    ensures
        config_preset_name_of(selected_profile, atmos_enabled).subrange(
            0,
            preset_name_of(selected_profile).len() as int,
        ) == preset_name_of(selected_profile),
        atmos_enabled ==> config_preset_name_of(selected_profile, atmos_enabled).len()
            > preset_name_of(selected_profile).len(),
        !atmos_enabled ==> config_preset_name_of(selected_profile, atmos_enabled)
            == preset_name_of(selected_profile),
{
    let base = preset_name_of(selected_profile);
    if atmos_enabled {
        reveal_strlit(" + Atmos compatível");
        assert((base + " + Atmos compatível"@).subrange(0, base.len() as int) =~= base);
    } else {
        assert(base.subrange(0, base.len() as int) =~= base);
    }
}

} // verus!
