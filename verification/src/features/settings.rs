//! What the controls of the settings dialog set, and what it says.

use crate::state::{AudioState, VoicePhase};
use crate::text::{decimal, decimal_text, number_or, opt_text, read_number, same};
use crate::voice::{
    DENOISE_ATTEN_LIM_DB_MAX, DENOISE_ATTEN_LIM_DB_MIN, clamp, clamped, usable_bitrate,
};
use vstd::prelude::*;
use vstd::string::*;

verus! {

#[derive(Debug, Clone, Copy, PartialEq, Eq, Structural)]
pub enum SettingsTab {
    Audio,
    Mic,
    Video,
    Activity,
    Diagnostics,
}

/// The heading above a tab, where it opens a group, and the tab's label.
pub fn tab_labels(tab: SettingsTab) -> (r: (&'static str, &'static str))
    ensures
        (r.0@, r.1@) == match tab {
            SettingsTab::Audio => ("Voice"@, "Audio"@),
            SettingsTab::Mic => (""@, "Microphone"@),
            SettingsTab::Video => ("Picture"@, "Video and screen"@),
            SettingsTab::Activity => ("Status"@, "Level and activity"@),
            SettingsTab::Diagnostics => (""@, "Diagnostics"@),
        },
{
    match tab {
        SettingsTab::Audio => ("Voice", "Audio"),
        SettingsTab::Mic => ("", "Microphone"),
        SettingsTab::Video => ("Picture", "Video and screen"),
        SettingsTab::Activity => ("Status", "Level and activity"),
        SettingsTab::Diagnostics => ("", "Diagnostics"),
    }
}

/// The device that was picked; the empty entry is the system's own.
pub fn picked_device(value: &str) -> (r: Option<String>)
    ensures
        opt_text(r) == if value@.len() == 0 {
            None
        } else {
            Some(value@)
        },
{
    if value.unicode_len() == 0 {
        None
    } else {
        Some(value.to_owned())
    }
}

/// The volume of the sounds, in percent: 70 for what is no number, 100 at most.
pub fn sfx_volume_from(value: &str) -> (r: u8)
    ensures
        r == clamped(number_or(value@, 255, 70) as int, 0, 100),
{
    let n: u64 = read_number(value, 255, 70);
    if n > 100 {
        100
    } else {
        n as u8
    }
}

/// The volume of the microphone, in percent: 100 for what is no number, 200 at
/// most.
pub fn mic_volume_from(value: &str) -> (r: u16)
    ensures
        r == clamped(number_or(value@, 65_535, 100) as int, 0, 200),
{
    let n: u64 = read_number(value, 65_535, 100);
    if n > 200 {
        200
    } else {
        n as u16
    }
}

/// The place of the threshold on the meter, in percent: 40 for what is no number,
/// 100 at most.
pub fn meter_pct_from(value: &str) -> (r: u32)
    ensures
        r == clamped(number_or(value@, 0xffff_ffff, 40) as int, 0, 100),
{
    clamp(read_number(value, 0xffff_ffff, 40) as u32, 0, 100)
}

/// The strength of noise cancellation: 30 for what is no number, within its
/// bounds.
pub fn atten_lim_from(value: &str) -> (r: u32)
    ensures
        r == clamped(
            number_or(value@, 0xffff_ffff, 30) as int,
            DENOISE_ATTEN_LIM_DB_MIN as int,
            DENOISE_ATTEN_LIM_DB_MAX as int,
        ),
{
    clamp(
        read_number(value, 0xffff_ffff, 30) as u32,
        DENOISE_ATTEN_LIM_DB_MIN,
        DENOISE_ATTEN_LIM_DB_MAX,
    )
}

/// The bitrate of the voice: the standard one where it was picked, else the high
/// one.
pub fn bitrate_from(value: &str) -> (r: u32)
    ensures
        r == if value@ == "24"@ {
            24u32
        } else {
            48u32
        },
{
    if same(value, "24") {
        24
    } else {
        48
    }
}

/// Whether the raw level is shown beside the one that is judged.
pub fn shows_raw_level(noise_cancellation: bool, auto_gain: bool, before: u32, after: u32) -> (r:
    bool)
    ensures
        r == ((noise_cancellation || auto_gain) && before != after),
{
    (noise_cancellation || auto_gain) && before != after
}

/// What stands under the meter about the raw level.
pub fn raw_level_caption(noise_cancellation: bool, auto_gain: bool) -> (r: &'static str)
    ensures
        r@ == match (noise_cancellation, auto_gain) {
            (true, false) =>
                "Grey tick: your raw microphone. The gap is what noise cancellation removed."@,
            (false, true) =>
                "Grey tick: your raw microphone. Auto gain moves the level the white threshold is judged against, so the threshold is not a microphone level."@,
            (true, true) =>
                "Grey tick: your raw microphone. Noise cancellation and auto gain both move the level before the white threshold sees it."@,
            (false, false) => ""@,
        },
{
    match (noise_cancellation, auto_gain) {
        (true, false) =>
            "Grey tick: your raw microphone. The gap is what noise cancellation removed.",
        (false, true) =>
            "Grey tick: your raw microphone. Auto gain moves the level the white threshold is judged against, so the threshold is not a microphone level.",
        (true, true) =>
            "Grey tick: your raw microphone. Noise cancellation and auto gain both move the level before the white threshold sees it.",
        (false, false) => "",
    }
}

/// What is said of the noise gate during a call.
pub fn gate_caption(phase: VoicePhase, muted: bool, gate_open: bool) -> (r: Option<&'static str>)
    ensures
        phase != VoicePhase::Connected ==> r is None,
        phase == VoicePhase::Connected ==> r is Some && r->Some_0@ == if muted {
            "Muted"@
        } else if gate_open {
            "Transmitting"@
        } else {
            "Below threshold — not transmitting"@
        },
{
    if phase != VoicePhase::Connected {
        return None;
    }
    if muted {
        Some("Muted")
    } else if gate_open {
        Some("Transmitting")
    } else {
        Some("Below threshold — not transmitting")
    }
}

/// What stands beside the level: the level itself during a call.
pub fn level_caption(phase: VoicePhase, level: &str) -> (r: String)
    ensures
        r@ == if phase == VoicePhase::Connecting {
            "reconnecting"@
        } else if phase == VoicePhase::Connected {
            level@
        } else {
            "join voice"@
        },
{
    if phase == VoicePhase::Connecting {
        "reconnecting".to_owned()
    } else if phase == VoicePhase::Connected {
        level.to_owned()
    } else {
        "join voice".to_owned()
    }
}

/// What is said under the choice of a bitrate.
pub fn bitrate_caption(phase: VoicePhase) -> (r: &'static str)
    ensures
        r@ == if phase == VoicePhase::Connected {
            "Applies the next time you join a voice channel."@
        } else {
            "Higher sounds better on low voices and background music, and costs more upload."@
        },
{
    if phase == VoicePhase::Connected {
        "Applies the next time you join a voice channel."
    } else {
        "Higher sounds better on low voices and background music, and costs more upload."
    }
}

#[derive(Debug, Clone, PartialEq, Eq)]
pub struct Camera {
    pub id: String,
    pub label: String,
}

/// The camera that was picked, and its label when it has one.
pub fn picked_camera(value: &str, cameras: &Vec<Camera>) -> (r: (Option<String>, Option<String>))
    ensures
        opt_text(r.0) == if value@.len() == 0 {
            None
        } else {
            Some(value@)
        },
        opt_text(r.1) == camera_label(cameras@, value@),
{
    (picked_device(value), label_of(cameras, value))
}

/// The label of the first camera with an id, when it has one.
pub open spec fn camera_label(cameras: Seq<Camera>, id: Seq<char>) -> Option<Seq<char>>
    decreases cameras.len(),
{
    if cameras.len() == 0 {
        None
    } else if cameras[0].id@ == id {
        if cameras[0].label@.len() > 0 {
            Some(cameras[0].label@)
        } else {
            None
        }
    } else {
        camera_label(cameras.drop_first(), id)
    }
}

fn label_of(cameras: &Vec<Camera>, id: &str) -> (r: Option<String>)
    ensures
        opt_text(r) == camera_label(cameras@, id@),
{
    let mut i: usize = 0;
    assert(cameras@.skip(0) =~= cameras@);
    while i < cameras.len()
        invariant
            i <= cameras@.len(),
            camera_label(cameras@, id@) == camera_label(cameras@.skip(i as int), id@),
        decreases cameras@.len() - i,
    {
        assert(cameras@.skip(i as int).drop_first() =~= cameras@.skip(i + 1));
        if same(cameras[i].id.as_str(), id) {
            if cameras[i].label.as_str().unicode_len() > 0 {
                return Some(cameras[i].label.clone());
            }
            return None;
        }
        i = i + 1;
    }
    None
}

/// What a camera is called in the list: its label, or its number.
pub fn camera_caption(camera: &Camera, index: u64) -> (r: String)
    requires
        index < u64::MAX,
    ensures
        r@ == if camera.label@.len() > 0 {
            camera.label@
        } else {
            "Camera "@ + decimal((index + 1) as nat)
        },
{
    if camera.label.as_str().unicode_len() > 0 {
        camera.label.clone()
    } else {
        "Camera ".to_owned().concat(decimal_text(index + 1).as_str())
    }
}

/// Whether cameras are listed and none has a label yet.
pub fn cameras_unnamed(cameras: &Vec<Camera>) -> (r: bool)
    ensures
        r == (cameras@.len() > 0 && forall|i: int|
            0 <= i < cameras@.len() ==> (#[trigger] cameras@[i]).label@.len() == 0),
{
    if cameras.len() == 0 {
        return false;
    }
    let mut i: usize = 0;
    while i < cameras.len()
        invariant
            i <= cameras@.len(),
            forall|j: int| 0 <= j < i ==> (#[trigger] cameras@[j]).label@.len() == 0,
        decreases cameras@.len() - i,
    {
        if cameras[i].label.as_str().unicode_len() > 0 {
            return false;
        }
        i = i + 1;
    }
    true
}

/// What of the sound was saved.
#[derive(Debug, Clone, PartialEq, Eq)]
pub struct SavedAudio {
    pub mic_sensitivity: u32,
    pub mic_volume: u16,
    pub auto_gain_control: bool,
    pub noise_cancellation: bool,
    pub bypass_system_processing: bool,
    pub denoise_atten_lim_db: u32,
    pub voice_bitrate_kbps: u32,
    pub selected_input_device: Option<String>,
    pub selected_output_device: Option<String>,
}

/// Takes up what was saved, brought within its bounds. What this system cannot do
/// is not taken up.
pub fn restore_audio(audio: &mut AudioState, saved: SavedAudio, bypass_supported: bool)
    ensures
        *final(audio) == (AudioState {
            mic_sensitivity: clamped(saved.mic_sensitivity as int, 1, 1000) as u32,
            mic_volume: clamped(saved.mic_volume as int, 0, 200) as u16,
            auto_gain_control: saved.auto_gain_control,
            noise_cancellation: saved.noise_cancellation,
            bypass_system_processing: saved.bypass_system_processing && bypass_supported,
            denoise_atten_lim_db: clamped(
                saved.denoise_atten_lim_db as int,
                DENOISE_ATTEN_LIM_DB_MIN as int,
                DENOISE_ATTEN_LIM_DB_MAX as int,
            ) as u32,
            voice_bitrate_kbps: usable_bitrate(saved.voice_bitrate_kbps),
            selected_input_device: saved.selected_input_device,
            selected_output_device: saved.selected_output_device,
            ..*old(audio)
        }),
{
    audio.mic_sensitivity = clamp(saved.mic_sensitivity, 1, 1000);
    audio.mic_volume = if saved.mic_volume > 200 {
        200
    } else {
        saved.mic_volume
    };
    audio.auto_gain_control = saved.auto_gain_control;
    audio.noise_cancellation = saved.noise_cancellation;
    audio.bypass_system_processing = saved.bypass_system_processing && bypass_supported;
    audio.denoise_atten_lim_db = clamp(
        saved.denoise_atten_lim_db,
        DENOISE_ATTEN_LIM_DB_MIN,
        DENOISE_ATTEN_LIM_DB_MAX,
    );
    audio.voice_bitrate_kbps = if saved.voice_bitrate_kbps == 24 {
        24
    } else {
        48
    };
    audio.selected_input_device = saved.selected_input_device;
    audio.selected_output_device = saved.selected_output_device;
}

} // verus!
