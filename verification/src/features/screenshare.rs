//! Sharing a screen and watching one.

use crate::json::{json_member_bool, json_member_str, json_string, member_bool, member_str, quote};
use crate::protocol::{CaptureSettings, ClientMessage, Id, ScreenSource, ShareTarget, VoiceCmd};
use crate::state::{AppState, AudioState, own_name};
use crate::text::{
    contains_text, decimal, decimal_text, number_or, opt_text, read_number, same, text_before,
    text_lt, text_lt_total, text_lt_trans, texts,
};
use crate::voice::{StreamAudio, clamp, clamped};
use vstd::prelude::*;
use vstd::string::*;

verus! {

/// What a share is made of.
#[derive(Debug, Clone, Copy, PartialEq, Eq)]
pub struct QualityPreset {
    pub width: u32,
    pub height: u32,
    pub fps: u32,
    pub bitrate: u32,
    pub hint: &'static str,
    pub degradation: &'static str,
}

/// Whether a preset has these values.
pub open spec fn preset_is(
    p: QualityPreset,
    size: (u32, u32),
    fps: u32,
    bitrate: u32,
    hint: Seq<char>,
    degradation: Seq<char>,
) -> bool {
    p.width == size.0 && p.height == size.1 && p.fps == fps && p.bitrate == bitrate && p.hint@
        == hint && p.degradation@ == degradation
}

/// The preset of a name: the balanced one, unless the name is one of the others.
pub open spec fn preset_for(id: Seq<char>, p: QualityPreset) -> bool {
    if id == "smooth"@ {
        preset_is(p, (1280, 720), 60, 6_000_000, "motion"@, "maintain-framerate"@)
    } else if id == "crisp"@ {
        preset_is(p, (1920, 1080), 15, 6_000_000, "detail"@, "maintain-resolution"@)
    } else if id == "ultra"@ {
        preset_is(p, (2560, 1440), 30, 14_000_000, "detail"@, "balanced"@)
    } else {
        preset_is(p, (1920, 1080), 30, 9_000_000, "motion"@, "balanced"@)
    }
}

/// The preset of a name.
pub fn quality_preset(id: &str) -> (r: QualityPreset)
    ensures
        preset_for(id@, r),
{
    if same(id, "smooth") {
        QualityPreset {
            width: 1280,
            height: 720,
            fps: 60,
            bitrate: 6_000_000,
            hint: "motion",
            degradation: "maintain-framerate",
        }
    } else if same(id, "crisp") {
        QualityPreset {
            width: 1920,
            height: 1080,
            fps: 15,
            bitrate: 6_000_000,
            hint: "detail",
            degradation: "maintain-resolution",
        }
    } else if same(id, "ultra") {
        QualityPreset {
            width: 2560,
            height: 1440,
            fps: 30,
            bitrate: 14_000_000,
            hint: "detail",
            degradation: "balanced",
        }
    } else {
        QualityPreset {
            width: 1920,
            height: 1080,
            fps: 30,
            bitrate: 9_000_000,
            hint: "motion",
            degradation: "balanced",
        }
    }
}

/// The label and the hint of a preset in the settings, where there is one.
pub fn preset_caption(id: &str) -> (r: Option<(&'static str, &'static str)>)
    ensures
        r is Some <==> id@ == "smooth"@ || id@ == "balanced"@ || id@ == "crisp"@ || id@
            == "ultra"@,
        id@ == "smooth"@ ==> r->Some_0.0@ == "Smooth — 720p60"@ && r->Some_0.1@
            == "Video and animation: stays fluid, softens when busy"@,
        id@ == "balanced"@ ==> r->Some_0.0@ == "Balanced — 1080p30"@ && r->Some_0.1@
            == "Good default for most sharing"@,
        id@ == "crisp"@ ==> r->Some_0.0@ == "Crisp — 1080p15"@ && r->Some_0.1@
            == "Sharpest text; drops frames when the screen is busy"@,
        id@ == "ultra"@ ==> r->Some_0.0@ == "Ultra — 1440p30"@ && r->Some_0.1@
            == "High detail; needs strong upload"@,
{
    proof {
        reveal_strlit("smooth");
        reveal_strlit("balanced");
        reveal_strlit("crisp");
        reveal_strlit("ultra");
        assert("smooth"@.len() == 6 && "balanced"@.len() == 8 && "crisp"@.len() == 5 && "ultra"@.len()
            == 5);
        assert("crisp"@[0] != "ultra"@[0]);
    }
    if same(id, "smooth") {
        Some(("Smooth — 720p60", "Video and animation: stays fluid, softens when busy"))
    } else if same(id, "balanced") {
        Some(("Balanced — 1080p30", "Good default for most sharing"))
    } else if same(id, "crisp") {
        Some(("Crisp — 1080p15", "Sharpest text; drops frames when the screen is busy"))
    } else if same(id, "ultra") {
        Some(("Ultra — 1440p30", "High detail; needs strong upload"))
    } else {
        None
    }
}

/// The capture settings of a preset.
pub open spec fn capture_for(id: Seq<char>) -> CaptureSettings {
    if id == "smooth"@ {
        CaptureSettings { width: 1280, height: 720, fps: 60, max_bitrate: 6_000_000 }
    } else if id == "crisp"@ {
        CaptureSettings { width: 1920, height: 1080, fps: 15, max_bitrate: 6_000_000 }
    } else if id == "ultra"@ {
        CaptureSettings { width: 2560, height: 1440, fps: 30, max_bitrate: 14_000_000 }
    } else {
        CaptureSettings { width: 1920, height: 1080, fps: 30, max_bitrate: 9_000_000 }
    }
}

/// The capture settings of a preset.
pub fn native_settings(quality: &str) -> (r: CaptureSettings)
    ensures
        r == capture_for(quality@),
{
    let p: QualityPreset = quality_preset(quality);
    assert(preset_for(quality@, p));
    CaptureSettings {
        width: p.width,
        height: p.height,
        fps: p.fps,
        max_bitrate: p.bitrate as u64,
    }
}

/// When this machine's sound is captured beside the page's.
#[derive(Debug, Clone, Copy, PartialEq, Eq, Structural)]
pub enum NativeScope {
    Always,
    MonitorOnly,
    Never,
}

/// The word of a scope.
pub open spec fn scope_word(scope: NativeScope) -> Seq<char> {
    match scope {
        NativeScope::Always => "always"@,
        NativeScope::MonitorOnly => "monitor"@,
        NativeScope::Never => "never"@,
    }
}

/// The word of a scope.
pub fn native_audio_mode(scope: NativeScope) -> (r: &'static str)
    ensures
        r@ == scope_word(scope),
{
    match scope {
        NativeScope::Always => "always",
        NativeScope::MonitorOnly => "monitor",
        NativeScope::Never => "never",
    }
}

/// A text as a literal of the page's language: quoted, so that nothing in it can
/// end the literal.
pub fn js_str(s: &str) -> (r: String)
    ensures
        r@ == json_string(s@),
{
    quote(s)
}

/// A truth value in the page's language.
pub open spec fn js_bool(b: bool) -> Seq<char> {
    if b {
        "true"@
    } else {
        "false"@
    }
}

fn bool_text(b: bool) -> (r: &'static str)
    ensures
        r@ == js_bool(b),
{
    if b {
        "true"
    } else {
        "false"
    }
}

/// A call in the page's language that begins a share with a preset.
pub open spec fn share_call(p: QualityPreset, audio: bool, scope: NativeScope) -> Seq<char> {
    "\nwindow.dxScreen.requestAndStartShare({width:"@ + decimal(p.width as nat) + ",height:"@
        + decimal(p.height as nat) + ",fps:"@ + decimal(p.fps as nat) + ",bitrate:"@ + decimal(
        p.bitrate as nat,
    ) + ",hint:"@ + json_string(p.hint@) + ",degradation:"@ + json_string(p.degradation@)
        + ",audio:"@ + js_bool(audio) + ",nativeAudio:"@ + json_string(scope_word(scope)) + "});"@
}

fn share_call_text(p: &QualityPreset, audio: bool, scope: NativeScope) -> (r: String)
    ensures
        r@ == share_call(*p, audio, scope),
{
    "\nwindow.dxScreen.requestAndStartShare({width:".to_owned().concat(
        decimal_text(p.width as u64).as_str(),
    ).concat(",height:").concat(decimal_text(p.height as u64).as_str()).concat(",fps:").concat(
        decimal_text(p.fps as u64).as_str(),
    ).concat(",bitrate:").concat(decimal_text(p.bitrate as u64).as_str()).concat(
        ",hint:",
    ).concat(quote(p.hint).as_str()).concat(",degradation:").concat(
        quote(p.degradation).as_str(),
    ).concat(",audio:").concat(bool_text(audio)).concat(",nativeAudio:").concat(
        quote(native_audio_mode(scope)).as_str(),
    ).concat("});")
}

/// The script that begins or ends a share, behind the page's own.
pub fn share_js(page: &str, on: bool, quality: &str, audio: bool, scope: NativeScope) -> (r: String)
    ensures
        !on ==> r@ == page@ + "\nwindow.dxScreen.stopShare();"@,
        on ==> exists|p: QualityPreset| #[trigger]
            preset_for(quality@, p) && r@ == page@ + share_call(p, audio, scope),
{
    if !on {
        return page.to_owned().concat("\nwindow.dxScreen.stopShare();");
    }
    let p: QualityPreset = quality_preset(quality);
    assert(preset_for(quality@, p));
    page.to_owned().concat(share_call_text(&p, audio, scope).as_str())
}

/// The script that shows somebody's picture in a part of the page.
pub fn attach_js(page: &str, identity: &str, container: &str, kind: &str) -> (r: String)
    ensures
        r@ == page@ + "\nwindow.dxScreen.attach("@ + json_string(identity@) + ","@ + json_string(
            container@,
        ) + ","@ + json_string(kind@) + ");"@,
{
    page.to_owned().concat("\nwindow.dxScreen.attach(").concat(quote(identity).as_str()).concat(
        ",",
    ).concat(quote(container).as_str()).concat(",").concat(quote(kind).as_str()).concat(");")
}

/// The script that clears a part of the page.
pub fn detach_js(page: &str, container: &str) -> (r: String)
    ensures
        r@ == page@ + "\nwindow.dxScreen.detach("@ + json_string(container@) + ");"@,
{
    page.to_owned().concat("\nwindow.dxScreen.detach(").concat(quote(container).as_str()).concat(
        ");",
    )
}

/// The script that chooses where a stream's sound comes out.
pub fn stream_sink_js(page: &str, device: Option<&str>) -> (r: String)
    ensures
        r@ == page@ + "\nwindow.dxScreen.setSink("@ + (match device {
            Some(d) => json_string(d@),
            None => "null"@,
        }) + ");"@,
{
    let arg: String = match device {
        Some(d) => quote(d),
        None => "null".to_owned(),
    };
    page.to_owned().concat("\nwindow.dxScreen.setSink(").concat(arg.as_str()).concat(");")
}

/// The script that joins the room of shared screens, or leaves it.
pub fn room_js(page: &str, room: &Option<(String, String)>, key: Option<&str>, encrypt: bool) -> (r:
    String)
    ensures
        r@ == match *room {
            Some((url, token)) => page@ + "\nwindow.dxScreen.connect("@ + json_string(url@) + ","@
                + json_string(token@) + ","@ + (match key {
                Some(k) => json_string(k@),
                None => "null"@,
            }) + ","@ + js_bool(encrypt) + ");"@,
            None => page@ + "\nwindow.dxScreen.disconnect();"@,
        },
{
    match room {
        Some((url, token)) => {
            let key: String = match key {
                Some(k) => quote(k),
                None => "null".to_owned(),
            };
            page.to_owned().concat("\nwindow.dxScreen.connect(").concat(
                quote(url.as_str()).as_str(),
            ).concat(",").concat(quote(token.as_str()).as_str()).concat(",").concat(
                key.as_str(),
            ).concat(",").concat(bool_text(encrypt)).concat(");")
        },
        None => page.to_owned().concat("\nwindow.dxScreen.disconnect();"),
    }
}

/// The script that says whether the sound of streams is played outside the page.
pub fn native_stream_js(page: &str, on: bool) -> (r: String)
    ensures
        r@ == page@ + "\nwindow.dxScreen.setNativeStreamAudio("@ + js_bool(on) + ");"@,
{
    page.to_owned().concat("\nwindow.dxScreen.setNativeStreamAudio(").concat(
        bool_text(on),
    ).concat(");")
}

/// What came of asking the page whether it can capture a screen.
#[derive(Debug, Clone, Copy, PartialEq, Eq, Structural)]
pub enum CaptureProbe {
    Able,
    Unable,
    /// The page could not be asked, and is taken to be able.
    Unanswered,
}

/// Notes whether a screen can be captured: by the system, or else by the page. That
/// neither can is said.
pub fn note_capture(s: &mut AppState, native_video: bool, probe: CaptureProbe)
    ensures
        ({
            let able = native_video || probe != CaptureProbe::Unable;
            &&& *final(s) == (AppState {
                screen_capture_available: able,
                error_toast: final(s).error_toast,
                ..*old(s)
            })
            &&& if able {
                final(s).error_toast == old(s).error_toast
            } else {
                final(s).error_toast is Some && final(s).error_toast->Some_0@
                    == "Screen sharing isn't available in this build's webview. On Windows, installing the WebView2 runtime enables it."@
            }
        }),
{
    let able: bool = native_video || probe != CaptureProbe::Unable;
    s.screen_capture_available = able;
    if !able {
        s.error_toast = Some(
            "Screen sharing isn't available in this build's webview. On Windows, installing the WebView2 runtime enables it.".to_owned(),
        );
    }
}

/// What the voice service is to be told about screens.
#[derive(Debug)]
pub struct ScreenWants {
    pub epoch: u64,
    pub audio_room: Option<(String, String)>,
    pub publish_system: bool,
    pub joined: bool,
    pub video_room: Option<(String, String)>,
    pub target: Option<ShareTarget>,
}

/// Whether somebody else shares a screen in our call.
pub open spec fn others_share(s: AppState) -> bool {
    match s.voice.channel_id {
        None => false,
        Some(cid) => s.screen_shares@.dom().contains(cid) && exists|i: int|
            0 <= i < s.screen_shares@[cid]@.len() && Some((#[trigger] s.screen_shares@[cid]@[i])@)
                != own_name(s),
    }
}

fn somebody_shares(s: &AppState) -> (r: bool)
    ensures
        r == others_share(*s),
{
    let cid: Id = match s.voice.channel_id {
        Some(cid) => cid,
        None => {
            return false;
        },
    };
    match s.screen_shares.get(cid) {
        None => false,
        Some(sharers) => {
            let mut i: usize = 0;
            while i < sharers.len()
                invariant
                    i <= sharers@.len(),
                    s.voice.channel_id == Some(cid),
                    s.screen_shares@.dom().contains(cid),
                    *sharers == s.screen_shares@[cid],
                    forall|j: int|
                        0 <= j < i ==> Some((#[trigger] sharers@[j])@) == own_name(*s),
                decreases sharers@.len() - i,
            {
                let ours: bool = s.is_self(sharers[i].as_str());
                if !ours {
                    assert(Some(sharers@[i as int]@) != own_name(*s));
                    assert(s.screen_shares@[cid]@[i as int]@ == sharers@[i as int]@);
                    return true;
                }
                i = i + 1;
            }
            false
        },
    }
}

/// What the voice service is to be told about screens: the sound of others' while
/// somebody shares, our own while we do.
pub open spec fn wants_of(s: AppState, native_video: bool) -> ScreenWants {
    ScreenWants {
        epoch: s.audio.session_epoch,
        audio_room: if others_share(s) {
            s.screen_audio_token
        } else {
            None
        },
        publish_system: s.screen_sharing && s.screen_native_audio,
        joined: s.audio.screen_audio_joined,
        video_room: if s.screen_sharing && native_video && s.screen_share_target is Some {
            s.screen_video_token
        } else {
            None
        },
        target: s.screen_share_target,
    }
}

fn copy_room(o: &Option<(String, String)>) -> (r: Option<(String, String)>)
    ensures
        r == *o,
{
    match o {
        Some(p) => Some((p.0.clone(), p.1.clone())),
        None => None,
    }
}

/// Finds out what the voice service is to be told about screens.
pub fn screen_wants(s: &AppState, native_video: bool) -> (r: ScreenWants)
    ensures
        r == wants_of(*s, native_video),
{
    let audio_room: Option<(String, String)> = if somebody_shares(s) {
        copy_room(&s.screen_audio_token)
    } else {
        None
    };
    let video_room: Option<(String, String)> = if s.screen_sharing && native_video
        && s.screen_share_target.is_some() {
        copy_room(&s.screen_video_token)
    } else {
        None
    };
    ScreenWants {
        epoch: s.audio.session_epoch,
        audio_room,
        publish_system: s.screen_sharing && s.screen_native_audio,
        joined: s.audio.screen_audio_joined,
        video_room,
        target: s.screen_share_target,
    }
}

/// The view of a room.
pub open spec fn room_view(o: Option<(String, String)>) -> Option<(Seq<char>, Seq<char>)> {
    match o {
        Some(p) => Some((p.0@, p.1@)),
        None => None,
    }
}

/// Whether two wants ask for the same.
pub open spec fn same_wants(a: ScreenWants, b: ScreenWants) -> bool {
    a.epoch == b.epoch && room_view(a.audio_room) == room_view(b.audio_room) && a.publish_system
        == b.publish_system && a.joined == b.joined && room_view(a.video_room) == room_view(
        b.video_room,
    ) && a.target == b.target
}

fn rooms_equal(a: &Option<(String, String)>, b: &Option<(String, String)>) -> (r: bool)
    ensures
        r == (room_view(*a) == room_view(*b)),
{
    match (a, b) {
        (Some(x), Some(y)) => same(x.0.as_str(), y.0.as_str()) && same(x.1.as_str(), y.1.as_str()),
        (None, None) => true,
        _ => false,
    }
}

fn targets_equal(a: Option<ShareTarget>, b: Option<ShareTarget>) -> (r: bool)
    ensures
        r == (a == b),
{
    match (a, b) {
        (Some(x), Some(y)) => x == y,
        (None, None) => true,
        _ => false,
    }
}

/// What is captured where nothing was chosen: the first screen.
pub open spec fn target_or_first(target: Option<ShareTarget>) -> ShareTarget {
    match target {
        Some(t) => t,
        None => ShareTarget::Display(0),
    }
}

/// What is sent to the voice service, unless it was told the same before: the
/// sound of others' screens, our own sound, our own picture. A change of quality alone
/// sends nothing.
pub fn screen_commands(now: &ScreenWants, last: &Option<ScreenWants>, quality: &str) -> (r: Vec<
    VoiceCmd,
>)
    ensures
        r@ == if *last is Some && same_wants(*now, last->Some_0) {
            Seq::empty()
        } else {
            seq![
                VoiceCmd::SetScreenAudio { room: now.audio_room },
                VoiceCmd::SetSystemAudio { enabled: now.publish_system, target: now.target },
                VoiceCmd::SetScreenVideo {
                    room: now.video_room,
                    target: target_or_first(now.target),
                    settings: capture_for(quality@),
                },
            ]
        },
{
    let mut out: Vec<VoiceCmd> = Vec::new();
    let told: bool = match last {
        Some(was) => now.epoch == was.epoch && rooms_equal(&now.audio_room, &was.audio_room)
            && now.publish_system == was.publish_system && now.joined == was.joined
            && rooms_equal(&now.video_room, &was.video_room) && targets_equal(
            now.target,
            was.target,
        ),
        None => false,
    };
    if told {
        assert(out@ =~= Seq::empty());
        return out;
    }
    out.push(VoiceCmd::SetScreenAudio { room: copy_room(&now.audio_room) });
    let target: ShareTarget = match now.target {
        Some(t) => t,
        None => ShareTarget::Display(0),
    };
    out.push(VoiceCmd::SetSystemAudio { enabled: now.publish_system, target: now.target });
    out.push(
        VoiceCmd::SetScreenVideo {
            room: copy_room(&now.video_room),
            target,
            settings: native_settings(quality),
        },
    );
    assert(out@ =~= seq![
        VoiceCmd::SetScreenAudio { room: now.audio_room },
        VoiceCmd::SetSystemAudio { enabled: now.publish_system, target: now.target },
        VoiceCmd::SetScreenVideo {
            room: now.video_room,
            target: target_or_first(now.target),
            settings: capture_for(quality@),
        },
    ]);
    out
}

/// What the page says about screens.
#[derive(Debug, Clone, PartialEq, Eq)]
pub enum ShareMessage {
    Started { native_audio: bool },
    Unavailable { secure: bool },
    EchoRisk,
    Ended,
    RoomError { detail: String },
    Reconnecting,
    TrackTimeout,
    Undecryptable,
    EncryptionError { detail: String },
    Audio { published: bool, supported: bool },
    StreamAudio { identity: String, present: bool },
    Other,
}

/// Whether what the page says, by its kind, its texts and its flags, is this
/// message.
pub open spec fn page_says(
    kind: Option<Seq<char>>,
    detail: Option<Seq<char>>,
    identity: Option<Seq<char>>,
    flags: (bool, bool, bool, bool, bool),
    m: ShareMessage,
) -> bool {
    if kind == Some("share-started"@) {
        m == (ShareMessage::Started { native_audio: flags.0 })
    } else if kind == Some("share-unavailable"@) {
        m == (ShareMessage::Unavailable { secure: flags.1 })
    } else if kind == Some("share-echo-risk"@) {
        m is EchoRisk
    } else if kind == Some("screen-share-ended"@) {
        m is Ended
    } else if kind == Some("screen-room-error"@) {
        m matches ShareMessage::RoomError { detail: d } && d@ == match detail {
            Some(t) => t,
            None => "unknown connection error"@,
        }
    } else if kind == Some("screen-room-reconnecting"@) {
        m is Reconnecting
    } else if kind == Some("screen-track-timeout"@) {
        m is TrackTimeout
    } else if kind == Some("e2ee-undecryptable"@) {
        m is Undecryptable
    } else if kind == Some("e2ee-error"@) {
        m matches ShareMessage::EncryptionError { detail: d } && d@ == match detail {
            Some(t) => t,
            None => "unknown error"@,
        }
    } else if kind == Some("share-audio"@) {
        m == (ShareMessage::Audio { published: flags.2, supported: flags.3 })
    } else if kind == Some("stream-audio"@) && identity is Some {
        m matches ShareMessage::StreamAudio { identity: i, present } && i@ == identity->Some_0
            && present == flags.4
    } else {
        m is Other
    }
}

fn text_or(o: Option<String>, other: &str) -> (r: String)
    ensures
        r@ == match o {
            Some(s) => s@,
            None => other@,
        },
{
    match o {
        Some(s) => s,
        None => other.to_owned(),
    }
}

/// Reads what the page says out of its parts.
pub fn share_message_from(
    kind: Option<String>,
    detail: Option<String>,
    identity: Option<String>,
    flags: (bool, bool, bool, bool, bool),
) -> (r: ShareMessage)
    ensures
        page_says(opt_text(kind), opt_text(detail), opt_text(identity), flags, r),
{
    let kind: String = match kind {
        Some(kind) => kind,
        None => {
            return ShareMessage::Other;
        },
    };
    let k: &str = kind.as_str();
    if same(k, "share-started") {
        ShareMessage::Started { native_audio: flags.0 }
    } else if same(k, "share-unavailable") {
        ShareMessage::Unavailable { secure: flags.1 }
    } else if same(k, "share-echo-risk") {
        ShareMessage::EchoRisk
    } else if same(k, "screen-share-ended") {
        ShareMessage::Ended
    } else if same(k, "screen-room-error") {
        ShareMessage::RoomError { detail: text_or(detail, "unknown connection error") }
    } else if same(k, "screen-room-reconnecting") {
        ShareMessage::Reconnecting
    } else if same(k, "screen-track-timeout") {
        ShareMessage::TrackTimeout
    } else if same(k, "e2ee-undecryptable") {
        ShareMessage::Undecryptable
    } else if same(k, "e2ee-error") {
        ShareMessage::EncryptionError { detail: text_or(detail, "unknown error") }
    } else if same(k, "share-audio") {
        ShareMessage::Audio { published: flags.2, supported: flags.3 }
    } else if same(k, "stream-audio") {
        match identity {
            Some(identity) => ShareMessage::StreamAudio { identity, present: flags.4 },
            None => ShareMessage::Other,
        }
    } else {
        ShareMessage::Other
    }
}

/// The flag of an object, `false` where it has none.
pub open spec fn flag_in(json: Seq<char>, key: Seq<char>) -> bool {
    json_member_bool(json, key) == Some(true)
}

fn flag(json: &str, key: &str) -> (r: bool)
    ensures
        r == flag_in(json@, key@),
{
    match member_bool(json, key) {
        Some(b) => b,
        None => false,
    }
}

/// Reads what the page says.
pub fn share_message(json: &str) -> (r: ShareMessage)
    ensures
        page_says(
            json_member_str(json@, "__dxf"@),
            json_member_str(json@, "detail"@),
            json_member_str(json@, "identity"@),
            (
                flag_in(json@, "nativeAudio"@),
                flag_in(json@, "secure"@),
                flag_in(json@, "published"@),
                flag_in(json@, "supported"@),
                flag_in(json@, "present"@),
            ),
            r,
        ),
{
    share_message_from(
        member_str(json, "__dxf"),
        member_str(json, "detail"),
        member_str(json, "identity"),
        (
            flag(json, "nativeAudio"),
            flag(json, "secure"),
            flag(json, "published"),
            flag(json, "supported"),
            flag(json, "present"),
        ),
    )
}

/// What is told to the gateway when a share begins or ends in a call.
pub open spec fn share_notice(channel: Option<Id>, sharing: bool) -> Option<ClientMessage> {
    match channel {
        Some(channel_id) => Some(ClientMessage::SetScreenShare { channel_id, sharing }),
        None => None,
    }
}

/// What a failure says, where there is one.
pub open spec fn share_complaint(m: ShareMessage) -> Option<Seq<char>> {
    match m {
        ShareMessage::Unavailable { secure } => Some(
            if secure {
                "This webview has no screen-capture support."@
            } else {
                "Screen sharing can't start: this window isn't a secure context, so the capture API is hidden. Please report this."@
            },
        ),
        ShareMessage::EchoRisk => Some(
            "Sharing a whole screen with sound also captures this call, so others may hear themselves echo. Share a single window instead to send only that app's audio."@,
        ),
        ShareMessage::RoomError { detail } => Some(
            "Couldn't connect to the screen stream: "@ + detail@ + ". Retrying…"@,
        ),
        ShareMessage::TrackTimeout => Some(
            "Connected to the stream room, but no video arrived. Make sure the sharer is running the latest Discordia build and restart the share."@,
        ),
        ShareMessage::EncryptionError { detail } => Some(
            "Encryption could not be enabled for this call ("@ + detail@
                + "). Others will not be able to hear or see you."@,
        ),
        ShareMessage::Audio { published, supported } => if published {
            None
        } else if supported {
            Some(
                "Sharing video only. To include sound, re-share and tick \"Share audio\" in the picker — choose a tab or your whole screen, as single windows can't carry audio."@,
            )
        } else {
            Some(
                "Sharing video only — this system doesn't let the app capture audio from a screen share, so viewers won't hear your machine."@,
            )
        },
        _ => None,
    }
}

/// What is said of a failure, where there is one.
pub fn complaint(m: &ShareMessage) -> (r: Option<String>)
    ensures
        opt_text(r) == share_complaint(*m),
{
    match m {
        ShareMessage::Unavailable { secure } => Some(
            if *secure {
                "This webview has no screen-capture support.".to_owned()
            } else {
                "Screen sharing can't start: this window isn't a secure context, so the capture API is hidden. Please report this.".to_owned()
            },
        ),
        ShareMessage::EchoRisk => Some(
            "Sharing a whole screen with sound also captures this call, so others may hear themselves echo. Share a single window instead to send only that app's audio.".to_owned(),
        ),
        ShareMessage::RoomError { detail } => Some(
            "Couldn't connect to the screen stream: ".to_owned().concat(detail.as_str()).concat(
                ". Retrying…",
            ),
        ),
        ShareMessage::TrackTimeout => Some(
            "Connected to the stream room, but no video arrived. Make sure the sharer is running the latest Discordia build and restart the share.".to_owned(),
        ),
        ShareMessage::EncryptionError { detail } => Some(
            "Encryption could not be enabled for this call (".to_owned().concat(
                detail.as_str(),
            ).concat("). Others will not be able to hear or see you."),
        ),
        ShareMessage::Audio { published, supported } => {
            if *published {
                None
            } else if *supported {
                Some(
                    "Sharing video only. To include sound, re-share and tick \"Share audio\" in the picker — choose a tab or your whole screen, as single windows can't carry audio.".to_owned(),
                )
            } else {
                Some(
                    "Sharing video only — this system doesn't let the app capture audio from a screen share, so viewers won't hear your machine.".to_owned(),
                )
            }
        },
        _ => None,
    }
}

/// What a message of the page does to what is known, apart from the sound of
/// streams and what is complained of.
pub open spec fn share_followed(o: AppState, m: ShareMessage, n: AppState) -> bool {
    n == (AppState {
        screen_sharing: match m {
            ShareMessage::Started { .. } => true,
            ShareMessage::Unavailable { .. } => false,
            ShareMessage::Ended => false,
            _ => o.screen_sharing,
        },
        screen_native_audio: match m {
            ShareMessage::Started { native_audio } => native_audio,
            ShareMessage::Ended => false,
            _ => o.screen_native_audio,
        },
        screen_capture_available: o.screen_capture_available && !(m is Unavailable),
        media_undecryptable: o.media_undecryptable || m is Undecryptable,
        error_toast: n.error_toast,
        audio: n.audio,
        ..o
    })
}

fn follow_flags(s: &mut AppState, m: &ShareMessage)
    ensures
        share_followed(*old(s), *m, *final(s)),
        final(s).error_toast == old(s).error_toast,
        final(s).audio == old(s).audio,
{
    match m {
        ShareMessage::Started { native_audio } => {
            s.screen_sharing = true;
            s.screen_native_audio = *native_audio;
        },
        ShareMessage::Unavailable { .. } => {
            s.screen_sharing = false;
            s.screen_capture_available = false;
        },
        ShareMessage::Ended => {
            s.screen_sharing = false;
            s.screen_native_audio = false;
        },
        ShareMessage::Undecryptable => {
            s.media_undecryptable = true;
        },
        _ => {},
    }
}

fn follow_stream(audio: &mut AudioState, m: &ShareMessage)
    ensures
        *final(audio) == (AudioState {
            stream_has_audio: final(audio).stream_has_audio,
            ..*old(audio)
        }),
        final(audio).stream_has_audio@ == match *m {
            ShareMessage::StreamAudio { identity, present } => if present {
                old(audio).stream_has_audio@.insert(identity@, true)
            } else {
                old(audio).stream_has_audio@.remove(identity@)
            },
            _ => old(audio).stream_has_audio@,
        },
{
    if let ShareMessage::StreamAudio { identity, present } = m {
        if *present {
            audio.stream_has_audio.insert(identity.clone(), true);
        } else {
            let _ = audio.stream_has_audio.remove(identity.as_str());
        }
    }
}

fn notice_for(m: &ShareMessage, channel: Option<Id>) -> (r: Option<ClientMessage>)
    ensures
        r == match *m {
            ShareMessage::Started { .. } => share_notice(channel, true),
            ShareMessage::Ended => share_notice(channel, false),
            _ => None,
        },
{
    match m {
        ShareMessage::Started { .. } => notice(channel, true),
        ShareMessage::Ended => notice(channel, false),
        _ => None,
    }
}

/// Follows what the page says, and gives what the gateway is to be told.
#[verifier::rlimit(40)]
pub fn on_share_message(s: &mut AppState, m: ShareMessage) -> (r: Option<ClientMessage>)
    ensures
        share_followed(*old(s), m, *final(s)),
        opt_text(final(s).error_toast) == match share_complaint(m) {
            Some(c) => Some(c),
            None => opt_text(old(s).error_toast),
        },
        final(s).audio == (AudioState {
            stream_has_audio: final(s).audio.stream_has_audio,
            ..old(s).audio
        }),
        final(s).audio.stream_has_audio@ == match m {
            ShareMessage::StreamAudio { identity, present } => if present {
                old(s).audio.stream_has_audio@.insert(identity@, true)
            } else {
                old(s).audio.stream_has_audio@.remove(identity@)
            },
            _ => old(s).audio.stream_has_audio@,
        },
        r == match m {
            ShareMessage::Started { .. } => share_notice(old(s).voice.channel_id, true),
            ShareMessage::Ended => share_notice(old(s).voice.channel_id, false),
            _ => None,
        },
{
    let channel: Option<Id> = s.voice.channel_id;
    follow_flags(s, &m);
    follow_stream(&mut s.audio, &m);
    let words: Option<String> = complaint(&m);
    if words.is_some() {
        s.error_toast = words;
    }
    notice_for(&m, channel)
}

fn notice(channel: Option<Id>, sharing: bool) -> (r: Option<ClientMessage>)
    ensures
        r == share_notice(channel, sharing),
{
    match channel {
        Some(channel_id) => Some(ClientMessage::SetScreenShare { channel_id, sharing }),
        None => None,
    }
}

/// Begins to share what was picked. The gateway is told unless we share already.
pub fn choose_source(s: &mut AppState, target: ShareTarget, with_audio: bool) -> (r: Option<
    ClientMessage,
>)
    ensures
        *final(s) == (AppState {
            screen_share_target: Some(target),
            screen_sharing: true,
            screen_native_audio: with_audio,
            screen_picker: None,
            ..*old(s)
        }),
        r == if old(s).screen_sharing {
            None
        } else {
            share_notice(old(s).voice.channel_id, true)
        },
{
    let already: bool = s.screen_sharing;
    s.screen_share_target = Some(target);
    s.screen_sharing = true;
    s.screen_native_audio = with_audio;
    s.screen_picker = None;
    if already {
        None
    } else {
        notice(s.voice.channel_id, true)
    }
}

/// Stops sharing. The gateway is told, wherever we are in a call.
pub fn stop_sharing(s: &mut AppState) -> (r: Option<ClientMessage>)
    ensures
        *final(s) == (AppState {
            screen_sharing: false,
            screen_share_target: None,
            screen_native_audio: false,
            ..*old(s)
        }),
        r == share_notice(old(s).voice.channel_id, false),
{
    s.screen_sharing = false;
    s.screen_share_target = None;
    s.screen_native_audio = false;
    notice(s.voice.channel_id, false)
}

/// Opens the picker of sources, with none listed yet.
pub fn open_screen_picker(s: &mut AppState)
    ensures
        *final(s) == (AppState { screen_picker: final(s).screen_picker, ..*old(s) }),
        final(s).screen_picker matches Some(Ok(sources)) && sources@.len() == 0,
{
    s.screen_picker = Some(Ok(Vec::new()));
}

/// Closes the picker of sources.
pub fn close_screen_picker(s: &mut AppState)
    ensures
        *final(s) == (AppState { screen_picker: None, ..*old(s) }),
{
    s.screen_picker = None;
}

/// Shows the sources that were found, or why there are none. A picker that was closed
/// while they were looked for stays closed.
pub fn sources_found(s: &mut AppState, found: Result<Vec<ScreenSource>, String>)
    ensures
        *final(s) == (AppState {
            screen_picker: if old(s).screen_picker is Some {
                Some(found)
            } else {
                None
            },
            ..*old(s)
        }),
{
    if s.screen_picker.is_some() {
        s.screen_picker = Some(found);
    }
}

/// The sources that are one window of an app, or those that are not.
pub open spec fn sources_by(sources: Seq<ScreenSource>, windows: bool) -> Seq<ScreenSource>
    decreases sources.len(),
{
    if sources.len() == 0 {
        Seq::empty()
    } else {
        let rest = sources_by(sources.drop_first(), windows);
        if (sources[0].app is Some) == windows {
            seq![sources[0]] + rest
        } else {
            rest
        }
    }
}

/// Lists sources in two groups, each in the order in which they were found: screens and
/// apps, then windows.
pub fn grouped_sources(sources: Vec<ScreenSource>) -> (r: (Vec<ScreenSource>, Vec<ScreenSource>))
    ensures
        r.0@ == sources_by(sources@, false),
        r.1@ == sources_by(sources@, true),
{
    let ghost all = sources@;
    let mut left: Vec<ScreenSource> = sources;
    let mut surfaces: Vec<ScreenSource> = Vec::new();
    let mut windows: Vec<ScreenSource> = Vec::new();
    while left.len() > 0
        invariant
            surfaces@ + sources_by(left@, false) =~= sources_by(all, false),
            windows@ + sources_by(left@, true) =~= sources_by(all, true),
        decreases left@.len(),
    {
        let ghost before = left@;
        let first: ScreenSource = left.remove(0);
        assert(left@ =~= before.drop_first());
        if first.app.is_some() {
            windows.push(first);
        } else {
            surfaces.push(first);
        }
    }
    assert(surfaces@ =~= sources_by(all, false));
    assert(windows@ =~= sources_by(all, true));
    (surfaces, windows)
}

/// The size of a source in words, where it is known.
pub fn size_label(width: u32, height: u32) -> (r: Option<String>)
    ensures
        opt_text(r) == if width > 0 {
            Some(decimal(width as nat) + "×"@ + decimal(height as nat))
        } else {
            None
        },
{
    if width > 0 {
        Some(
            decimal_text(width as u64).concat("×").concat(decimal_text(height as u64).as_str()),
        )
    } else {
        None
    }
}

/// What is said over our own share.
pub fn share_label(target: Option<ShareTarget>) -> (r: &'static str)
    ensures
        r@ == match target {
            Some(ShareTarget::Window(_)) => "Sharing one window"@,
            Some(ShareTarget::Application(_)) => "Sharing an app"@,
            _ => "Sharing your screen"@,
        },
{
    match target {
        Some(ShareTarget::Window(_)) => "Sharing one window",
        Some(ShareTarget::Application(_)) => "Sharing an app",
        Some(ShareTarget::Display(_)) => "Sharing your screen",
        None => "Sharing your screen",
    }
}

/// How loud a stream is, in percent: silent when muted, else as set, or full.
pub open spec fn stream_level(
    volumes: Map<Seq<char>, u32>,
    muted: Map<Seq<char>, bool>,
    pubkey: Seq<char>,
) -> u32 {
    if muted.dom().contains(pubkey) {
        0
    } else if volumes.dom().contains(pubkey) {
        volumes[pubkey]
    } else {
        100
    }
}

/// How loud a stream is, in percent.
pub fn stream_gain_of(s: &AppState, pubkey: &str) -> (r: u32)
    ensures
        r == stream_level(s.stream_volumes@, s.stream_muted@, pubkey@),
{
    if s.stream_muted.contains(pubkey) {
        return 0;
    }
    match s.stream_volumes.get(pubkey) {
        Some(v) => *v,
        None => 100,
    }
}

/// The loudest a stream can be set to, in percent.
pub const MAX_STREAM_LEVEL: u32 = 200;

/// The volume of a stream, in percent: 100 for what is no number, twice that at most.
pub fn stream_volume_from(value: &str) -> (r: u32)
    ensures
        r == clamped(number_or(value@, 0xffff_ffff, 100) as int, 0, MAX_STREAM_LEVEL as int),
{
    clamp(read_number(value, 0xffff_ffff, 100) as u32, 0, MAX_STREAM_LEVEL)
}

/// Whether no stream is set louder than it can be.
pub open spec fn within_limits(volumes: Map<Seq<char>, u32>) -> bool {
    forall|k: Seq<char>| #[trigger]
        volumes.dom().contains(k) ==> volumes[k] <= MAX_STREAM_LEVEL
}

/// Sets the volume of a stream by a slider's value, and gives how loud it is now.
pub fn set_stream_volume(s: &mut AppState, pubkey: &str, value: &str) -> (r: u32)
    ensures
        *final(s) == (AppState { stream_volumes: final(s).stream_volumes, ..*old(s) }),
        final(s).stream_volumes@ == old(s).stream_volumes@.insert(
            pubkey@,
            clamped(number_or(value@, 0xffff_ffff, 100) as int, 0, MAX_STREAM_LEVEL as int) as u32,
        ),
        r == stream_level(final(s).stream_volumes@, final(s).stream_muted@, pubkey@),
        r <= MAX_STREAM_LEVEL,
        within_limits(old(s).stream_volumes@) ==> within_limits(final(s).stream_volumes@),
{
    s.stream_volumes.insert(pubkey.to_owned(), stream_volume_from(value));
    stream_gain_of(s, pubkey)
}

/// Mutes a stream, or lets it be heard again, and gives how loud it is now. Its volume
/// stays as it was set.
pub fn toggle_stream_mute(s: &mut AppState, pubkey: &str) -> (r: u32)
    ensures
        *final(s) == (AppState { stream_muted: final(s).stream_muted, ..*old(s) }),
        final(s).stream_muted@ == if old(s).stream_muted@.dom().contains(pubkey@) {
            old(s).stream_muted@.remove(pubkey@)
        } else {
            old(s).stream_muted@.insert(pubkey@, true)
        },
        r == stream_level(final(s).stream_volumes@, final(s).stream_muted@, pubkey@),
{
    if s.stream_muted.contains(pubkey) {
        let _ = s.stream_muted.remove(pubkey);
    } else {
        s.stream_muted.insert(pubkey.to_owned(), true);
    }
    stream_gain_of(s, pubkey)
}

/// How loud the stream we watch is, in percent: silent while deafened, and where none is
/// watched.
pub open spec fn watched(s: AppState) -> u32 {
    if s.voice.deafened {
        0
    } else {
        match s.screen_viewing {
            Some(pubkey) => stream_level(s.stream_volumes@, s.stream_muted@, pubkey@),
            None => 0,
        }
    }
}

/// How loud the stream we watch is, in percent.
pub fn watched_level(s: &AppState) -> (r: u32)
    ensures
        r == watched(*s),
        within_limits(s.stream_volumes@) ==> r <= MAX_STREAM_LEVEL,
{
    if s.voice.deafened {
        return 0;
    }
    match &s.screen_viewing {
        Some(pubkey) => stream_gain_of(s, pubkey.as_str()),
        None => 0,
    }
}

/// Muting a stream twice leaves how loud it is as it was, and in between it is silent.
pub proof fn a_mute_is_undone(
    volumes: Map<Seq<char>, u32>,
    muted: Map<Seq<char>, bool>,
    pubkey: Seq<char>,
)
    requires
        !muted.dom().contains(pubkey),
    ensures
        stream_level(volumes, muted.insert(pubkey, true), pubkey) == 0,
        muted.insert(pubkey, true).remove(pubkey) == muted,
        stream_level(volumes, muted.insert(pubkey, true).remove(pubkey), pubkey) == stream_level(
            volumes,
            muted,
            pubkey,
        ),
{
    assert(muted.insert(pubkey, true).remove(pubkey) =~= muted);
}

/// Stops watching a stream.
pub fn stop_watching(s: &mut AppState)
    ensures
        *final(s) == (AppState { screen_viewing: None, ..*old(s) }),
{
    s.screen_viewing = None;
}

/// A level as a fraction of full volume: hundredths, with no zero at the end.
pub open spec fn fraction(level: u32) -> Seq<char> {
    let whole = decimal((level / 100) as nat);
    let rest = level % 100;
    if rest == 0 {
        whole
    } else if rest % 10 == 0 {
        whole + "."@ + decimal((rest / 10) as nat)
    } else if rest < 10 {
        whole + ".0"@ + decimal(rest as nat)
    } else {
        whole + "."@ + decimal(rest as nat)
    }
}

/// The script that sets how loud the page plays the stream we watch.
pub fn stream_volume_js(page: &str, level: u32) -> (r: String)
    requires
        level <= MAX_STREAM_LEVEL,
    ensures
        r@ == page@ + "\nwindow.dxScreen.setStreamVolume("@ + fraction(level) + ");"@,
{
    let whole: String = decimal_text((level / 100) as u64);
    let rest: u32 = level % 100;
    let text: String = if rest == 0 {
        whole
    } else if rest % 10 == 0 {
        whole.concat(".").concat(decimal_text((rest / 10) as u64).as_str())
    } else if rest < 10 {
        whole.concat(".0").concat(decimal_text(rest as u64).as_str())
    } else {
        whole.concat(".").concat(decimal_text(rest as u64).as_str())
    };
    page.to_owned().concat("\nwindow.dxScreen.setStreamVolume(").concat(text.as_str()).concat(");")
}

/// Whether a list of streams and their levels is in order of names.
pub open spec fn by_name(s: Seq<(String, u32)>) -> bool {
    forall|i: int, j: int| 0 <= i < j < s.len() ==> !text_lt((#[trigger] s[j]).0@, (#[trigger] s[i]).0@)
}

/// Whether each stream has the level it should: only the watched one is heard.
pub open spec fn levels_right(s: AppState, v: Seq<(String, u32)>) -> bool {
    forall|i: int|
        0 <= i < v.len() ==> (#[trigger] v[i]).1 == if opt_text(s.screen_viewing) == Some(v[i].0@) {
            stream_level(s.stream_volumes@, s.stream_muted@, v[i].0@)
        } else {
            0
        }
}

/// The names of a list.
pub open spec fn stream_names(v: Seq<(String, u32)>) -> Seq<Seq<char>> {
    v.map_values(|e: (String, u32)| e.0@)
}

fn level_for(s: &AppState, pubkey: &str) -> (r: u32)
    ensures
        r == if opt_text(s.screen_viewing) == Some(pubkey@) {
            stream_level(s.stream_volumes@, s.stream_muted@, pubkey@)
        } else {
            0
        },
{
    let watched: bool = match &s.screen_viewing {
        Some(w) => same(w.as_str(), pubkey),
        None => false,
    };
    if watched {
        stream_gain_of(s, pubkey)
    } else {
        0
    }
}

fn insert_level(v: &mut Vec<(String, u32)>, name: String, level: u32)
    requires
        by_name(old(v)@),
    ensures
        by_name(final(v)@),
        final(v)@.to_multiset() == old(v)@.to_multiset().insert((name, level)),
        exists|k: int| 0 <= k <= old(v)@.len() && final(v)@ == #[trigger] old(v)@.insert(k, (name, level)),
{
    let ghost sorted = v@;
    let mut i: usize = 0;
    while i < v.len() && !text_before(name.as_str(), v[i].0.as_str())
        invariant
            i <= v@.len(),
            v@ == sorted,
            forall|j: int| 0 <= j < i ==> !text_lt(name@, (#[trigger] v@[j]).0@),
        decreases v@.len() - i,
    {
        i = i + 1;
    }
    let ghost item = (name, level);
    v.insert(i, (name, level));
    proof {
        assert(v@ =~= sorted.insert(i as int, item));
        vstd::seq_lib::to_multiset_insert(sorted, i as int, item);
        let n = i as int;
        assert forall|a: int, b: int| 0 <= a < b < v@.len() implies !text_lt(
            (#[trigger] v@[b]).0@,
            (#[trigger] v@[a]).0@,
        ) by {
            if b == n {
                assert(v@[a] == sorted[a]);
            } else if a == n {
                assert(v@[b] == sorted[b - 1]);
                text_lt_total(sorted[n].0@, item.0@);
                text_lt_total(sorted[b - 1].0@, item.0@);
                if text_lt(sorted[b - 1].0@, item.0@) {
                    text_lt_trans(sorted[b - 1].0@, item.0@, sorted[n].0@);
                    if b - 1 > n {
                        assert(!text_lt(sorted[b - 1].0@, sorted[n].0@));
                    }
                    text_lt_total(sorted[n].0@, sorted[n].0@);
                }
            } else {
                let x = if a < n {
                    a
                } else {
                    a - 1
                };
                let y = if b < n {
                    b
                } else {
                    b - 1
                };
                assert(v@[a] == sorted[x] && v@[b] == sorted[y]);
                assert(!text_lt(sorted[y].0@, sorted[x].0@));
            }
        }
    }
}

/// Everybody who shares a screen, and whoever is watched besides.
pub open spec fn shown_streams(list: Seq<(Id, Vec<String>)>) -> Seq<Seq<char>>
    decreases list.len(),
{
    if list.len() == 0 {
        Seq::empty()
    } else {
        shown_streams(list.drop_last()) + texts(list.last().1@)
    }
}

/// Lists everybody who shares a screen, in the order of the channels.
pub fn sharers_of(s: &AppState) -> (r: Vec<String>)
    ensures
        texts(r@) == shown_streams(s.screen_shares.list()),
{
    let mut out: Vec<String> = Vec::new();
    let n: usize = s.screen_shares.len();
    let ghost list = s.screen_shares.list();
    let mut i: usize = 0;
    assert(list.take(0) =~= Seq::empty());
    assert(texts(out@) =~= Seq::empty());
    while i < n
        invariant
            i <= n,
            n == list.len(),
            list == s.screen_shares.list(),
            texts(out@) == shown_streams(list.take(i as int)),
        decreases n - i,
    {
        let sharers: &Vec<String> = &s.screen_shares.entry(i).1;
        let ghost before = texts(out@);
        let mut j: usize = 0;
        assert(texts(sharers@).take(0) =~= Seq::empty());
        while j < sharers.len()
            invariant
                j <= sharers@.len(),
                texts(out@) =~= before + texts(sharers@).take(j as int),
            decreases sharers@.len() - j,
        {
            let ghost was = out@;
            out.push(sharers[j].clone());
            assert(texts(out@) =~= texts(was).push(sharers@[j as int]@));
            assert(texts(sharers@).take(j + 1) =~= texts(sharers@).take(j as int).push(
                sharers@[j as int]@,
            ));
            j = j + 1;
        }
        assert(texts(sharers@).take(j as int) =~= texts(sharers@));
        assert(list.take(i + 1).drop_last() =~= list.take(i as int));
        i = i + 1;
    }
    assert(list.take(n as int) =~= list);
    out
}

/// The streams whose level is set: those shared, and the watched one.
pub open spec fn level_names(s: AppState) -> Seq<Seq<char>> {
    let shared = shown_streams(s.screen_shares.list());
    match s.screen_viewing {
        Some(w) => if shared.contains(w@) {
            shared
        } else {
            shared.push(w@)
        },
        None => shared,
    }
}

/// How loud each stream is to be, in order of names: only the watched one is
/// heard.
pub fn desired_levels(s: &AppState) -> (r: Vec<(String, u32)>)
    ensures
        by_name(r@),
        levels_right(*s, r@),
        stream_names(r@).to_multiset() == level_names(*s).to_multiset(),
{
    let mut names: Vec<String> = sharers_of(s);
    if let Some(w) = &s.screen_viewing {
        if !contains_text(&names, w.as_str()) {
            let ghost was = names@;
            names.push(w.clone());
            assert(texts(names@) =~= texts(was).push(w@));
        }
    }
    let ghost all = texts(names@);
    let mut out: Vec<(String, u32)> = Vec::new();
    let mut i: usize = 0;
    assert(stream_names(out@) =~= all.take(0));
    while i < names.len()
        invariant
            i <= names@.len(),
            all == texts(names@),
            by_name(out@),
            levels_right(*s, out@),
            stream_names(out@).to_multiset() == all.take(i as int).to_multiset(),
        decreases names@.len() - i,
    {
        let level: u32 = level_for(s, names[i].as_str());
        let name: String = names[i].clone();
        let ghost was = out@;
        let ghost item = (name, level);
        insert_level(&mut out, name, level);
        proof {
            let k = choose|k: int|
                0 <= k <= was.len() && out@ == #[trigger] was.insert(k, item);
            assert(stream_names(out@) =~= stream_names(was).insert(k, item.0@));
            vstd::seq_lib::to_multiset_insert(stream_names(was), k, item.0@);
            vstd::seq_lib::to_multiset_build(all.take(i as int), all[i as int]);
            assert(all.take(i + 1) =~= all.take(i as int).push(all[i as int]));
            assert forall|j: int| 0 <= j < out@.len() implies (#[trigger] out@[j]).1 == if opt_text(
                s.screen_viewing,
            ) == Some(out@[j].0@) {
                stream_level(s.stream_volumes@, s.stream_muted@, out@[j].0@)
            } else {
                0
            } by {
                if j < k {
                    assert(out@[j] == was[j]);
                } else if j > k {
                    assert(out@[j] == was[j - 1]);
                }
            }
        }
        i = i + 1;
    }
    assert(all.take(i as int) =~= all);
    out
}

} // verus!
