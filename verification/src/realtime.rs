use vstd::prelude::*;
use crate::json::{Json, get_str, json_as_str, json_get};
use crate::models::{opt_string_view, pairs_view};
use crate::text::{owned, push_str, str_eq};

verus! {

/// Where a realtime voice conversation stands.
#[derive(Clone, Copy, Debug, PartialEq, Eq, Structural)]
pub enum RealtimeConversationPhase {
    Inactive,
    Starting,
    Active,
    Stopping,
}

impl Default for RealtimeConversationPhase {
    fn default() -> (res: Self)
        ensures
            res == RealtimeConversationPhase::Inactive,
    {
        RealtimeConversationPhase::Inactive
    }
}

/// The state of the realtime voice conversation that the chat view shows.
///
/// The microphone capture, its stop flag and the audio player are devices
/// that the application holds; this state records which of them it holds.
#[derive(Debug, PartialEq)]
pub struct RealtimeConversationUiState {
    pub phase: RealtimeConversationPhase,
    pub requested_close: bool,
    pub realtime_session_id: Option<String>,
    pub meter_placeholder_id: Option<String>,
    pub has_capture_stop_flag: bool,
    pub has_capture: bool,
    pub has_audio_player: bool,
}

pub struct RealtimeStateView {
    pub phase: RealtimeConversationPhase,
    pub requested_close: bool,
    pub realtime_session_id: Option<Seq<char>>,
    pub meter_placeholder_id: Option<Seq<char>>,
    pub has_capture_stop_flag: bool,
    pub has_capture: bool,
    pub has_audio_player: bool,
}

impl View for RealtimeConversationUiState {
    type V = RealtimeStateView;

    open spec fn view(&self) -> RealtimeStateView {
        RealtimeStateView {
            phase: self.phase,
            requested_close: self.requested_close,
            realtime_session_id: opt_string_view(self.realtime_session_id),
            meter_placeholder_id: opt_string_view(self.meter_placeholder_id),
            has_capture_stop_flag: self.has_capture_stop_flag,
            has_capture: self.has_capture,
            has_audio_player: self.has_audio_player,
        }
    }
}

/// Whether a conversation is under way: starting, active, or stopping.
pub open spec fn spec_is_live(phase: RealtimeConversationPhase) -> bool {
    phase != RealtimeConversationPhase::Inactive
}

impl RealtimeConversationUiState {
    /// No conversation, and no device held.
    pub fn new() -> (res: Self)
        ensures
            res@ == (RealtimeStateView {
                phase: RealtimeConversationPhase::Inactive,
                requested_close: false,
                realtime_session_id: None,
                meter_placeholder_id: None,
                has_capture_stop_flag: false,
                has_capture: false,
                has_audio_player: false,
            }),
    {
        RealtimeConversationUiState {
            phase: RealtimeConversationPhase::Inactive,
            requested_close: false,
            realtime_session_id: None,
            meter_placeholder_id: None,
            has_capture_stop_flag: false,
            has_capture: false,
            has_audio_player: false,
        }
    }

    /// Whether a conversation is under way: starting, active, or stopping.
    pub fn is_live(&self) -> (res: bool)
        ensures
            res == spec_is_live(self.phase),
    {
        match self.phase {
            RealtimeConversationPhase::Starting | RealtimeConversationPhase::Active
            | RealtimeConversationPhase::Stopping => true,
            RealtimeConversationPhase::Inactive => false,
        }
    }

    /// Whether the conversation is active.
    pub fn is_active(&self) -> (res: bool)
        ensures
            res == (self.phase == RealtimeConversationPhase::Active),
    {
        match self.phase {
            RealtimeConversationPhase::Active => true,
            _ => false,
        }
    }
}

/// What the chat view asks of the application, in order.
#[derive(Debug, PartialEq)]
pub enum RealtimeEffect {
    /// Shows these footer hints in place of the usual ones, or the usual ones again.
    SetFooterHintOverride(Option<Vec<(String, String)>>),
    /// Asks the server to start a realtime conversation.
    SubmitConversationStart,
    /// Asks the server to close the realtime conversation.
    SubmitConversationClose,
    AddInfoMessage(String),
    AddErrorMessage(String),
    RequestRedraw,
    /// Sets the stop flag of the microphone capture and lets it go.
    SignalCaptureStop,
    /// Stops the microphone capture and lets it go.
    StopCapture,
    /// Removes the recording meter with this id.
    RemoveMeterPlaceholder(String),
    /// Clears the audio player and lets it go.
    StopAudioPlayer,
    /// Clears what the audio player has queued, keeping it.
    ClearAudioPlayback,
    /// Starts the microphone capture; its outcome comes back through
    /// `on_microphone_capture_started` or `on_microphone_capture_failed`.
    StartMicrophoneCapture,
    /// Starts the audio player; its outcome comes back through
    /// `on_audio_player_started`, with `then_enqueue`.
    StartAudioPlayer { then_enqueue: bool },
    /// Starts the audio player anew; its outcome comes back through
    /// `on_speaker_output_started` or `on_speaker_output_failed`.
    RestartSpeakerOutput,
    /// Plays the received audio frame on the audio player.
    EnqueueAudioFrame,
    /// Runs the task that animates the recording meter with this id.
    SpawnMeterTask(String),
}

pub enum RealtimeEffectView {
    SetFooterHintOverride(Option<Seq<(Seq<char>, Seq<char>)>>),
    SubmitConversationStart,
    SubmitConversationClose,
    AddInfoMessage(Seq<char>),
    AddErrorMessage(Seq<char>),
    RequestRedraw,
    SignalCaptureStop,
    StopCapture,
    RemoveMeterPlaceholder(Seq<char>),
    StopAudioPlayer,
    ClearAudioPlayback,
    StartMicrophoneCapture,
    StartAudioPlayer { then_enqueue: bool },
    RestartSpeakerOutput,
    EnqueueAudioFrame,
    SpawnMeterTask(Seq<char>),
}

impl View for RealtimeEffect {
    type V = RealtimeEffectView;

    open spec fn view(&self) -> RealtimeEffectView {
        match self {
            RealtimeEffect::SetFooterHintOverride(items) => RealtimeEffectView::SetFooterHintOverride(
                match items {
                    Some(i) => Some(pairs_view(i@)),
                    None => None,
                },
            ),
            RealtimeEffect::SubmitConversationStart => RealtimeEffectView::SubmitConversationStart,
            RealtimeEffect::SubmitConversationClose => RealtimeEffectView::SubmitConversationClose,
            RealtimeEffect::AddInfoMessage(m) => RealtimeEffectView::AddInfoMessage(m@),
            RealtimeEffect::AddErrorMessage(m) => RealtimeEffectView::AddErrorMessage(m@),
            RealtimeEffect::RequestRedraw => RealtimeEffectView::RequestRedraw,
            RealtimeEffect::SignalCaptureStop => RealtimeEffectView::SignalCaptureStop,
            RealtimeEffect::StopCapture => RealtimeEffectView::StopCapture,
            RealtimeEffect::RemoveMeterPlaceholder(id) => RealtimeEffectView::RemoveMeterPlaceholder(id@),
            RealtimeEffect::StopAudioPlayer => RealtimeEffectView::StopAudioPlayer,
            RealtimeEffect::ClearAudioPlayback => RealtimeEffectView::ClearAudioPlayback,
            RealtimeEffect::StartMicrophoneCapture => RealtimeEffectView::StartMicrophoneCapture,
            RealtimeEffect::StartAudioPlayer { then_enqueue } => RealtimeEffectView::StartAudioPlayer {
                then_enqueue: *then_enqueue,
            },
            RealtimeEffect::RestartSpeakerOutput => RealtimeEffectView::RestartSpeakerOutput,
            RealtimeEffect::EnqueueAudioFrame => RealtimeEffectView::EnqueueAudioFrame,
            RealtimeEffect::SpawnMeterTask(id) => RealtimeEffectView::SpawnMeterTask(id@),
        }
    }
}

pub open spec fn effects_view(e: Seq<RealtimeEffect>) -> Seq<RealtimeEffectView> {
    e.map_values(|x: RealtimeEffect| x@)
}

/// Which audio device to restart.
#[derive(Clone, Copy, Debug, PartialEq, Eq, Structural)]
pub enum RealtimeAudioDeviceKind {
    Microphone,
    Speaker,
}

/// The realtime voice part of the chat view.
#[derive(Debug, PartialEq)]
pub struct ChatWidget {
    pub realtime_conversation: RealtimeConversationUiState,
    /// Whether this platform records and plays audio (every platform but Linux).
    pub local_audio: bool,
}

pub struct WidgetView {
    pub conv: RealtimeStateView,
    pub local_audio: bool,
}

impl View for ChatWidget {
    type V = WidgetView;

    open spec fn view(&self) -> WidgetView {
        WidgetView { conv: self.realtime_conversation@, local_audio: self.local_audio }
    }
}

// ---------------------------------------------------------------------------
// The model of the conversation.

/// The view, with what was asked of the application so far.
pub struct Outcome {
    pub w: WidgetView,
    pub fx: Seq<RealtimeEffectView>,
}

pub open spec fn emit(o: Outcome, e: RealtimeEffectView) -> Outcome {
    Outcome { fx: o.fx.push(e), ..o }
}

pub open spec fn with_conv(o: Outcome, c: RealtimeStateView) -> Outcome {
    Outcome { w: WidgetView { conv: c, ..o.w }, ..o }
}

/// The footer hints shown while a conversation runs.
pub open spec fn footer_items() -> Seq<(Seq<char>, Seq<char>)> {
    seq![("/realtime"@, "stop live voice"@)]
}

pub open spec fn spec_stop_microphone(o: Outcome) -> Outcome {
    let c = o.w.conv;
    let o1 = if c.has_capture_stop_flag { emit(o, RealtimeEffectView::SignalCaptureStop) } else { o };
    let o2 = if c.has_capture { emit(o1, RealtimeEffectView::StopCapture) } else { o1 };
    let o3 = match c.meter_placeholder_id {
        Some(id) => emit(o2, RealtimeEffectView::RemoveMeterPlaceholder(id)),
        None => o2,
    };
    with_conv(o3, RealtimeStateView { has_capture_stop_flag: false, has_capture: false, meter_placeholder_id: None, ..c })
}

pub open spec fn spec_stop_speaker(o: Outcome) -> Outcome {
    let c = o.w.conv;
    let o1 = if c.has_audio_player { emit(o, RealtimeEffectView::StopAudioPlayer) } else { o };
    with_conv(o1, RealtimeStateView { has_audio_player: false, ..c })
}

pub open spec fn spec_stop_local_audio(o: Outcome) -> Outcome {
    if o.w.local_audio { spec_stop_speaker(spec_stop_microphone(o)) } else { o }
}

pub open spec fn spec_start_local_audio(o: Outcome) -> Outcome {
    if o.w.local_audio && !o.w.conv.has_capture_stop_flag {
        emit(o, RealtimeEffectView::StartMicrophoneCapture)
    } else {
        o
    }
}

pub open spec fn spec_request_close(o: Outcome, info: Option<Seq<char>>) -> Outcome {
    if !spec_is_live(o.w.conv.phase) {
        match info {
            Some(m) => emit(o, RealtimeEffectView::AddInfoMessage(m)),
            None => o,
        }
    } else {
        let o1 = with_conv(
            o,
            RealtimeStateView { requested_close: true, phase: RealtimeConversationPhase::Stopping, ..o.w.conv },
        );
        let o2 = emit(o1, RealtimeEffectView::SubmitConversationClose);
        let o3 = spec_stop_local_audio(o2);
        let o4 = emit(o3, RealtimeEffectView::SetFooterHintOverride(None));
        match info {
            Some(m) => emit(o4, RealtimeEffectView::AddInfoMessage(m)),
            None => emit(o4, RealtimeEffectView::RequestRedraw),
        }
    }
}

pub open spec fn spec_reset(o: Outcome) -> Outcome {
    let o1 = spec_stop_local_audio(o);
    let o2 = emit(o1, RealtimeEffectView::SetFooterHintOverride(None));
    with_conv(
        o2,
        RealtimeStateView {
            phase: RealtimeConversationPhase::Inactive,
            requested_close: false,
            realtime_session_id: None,
            ..o2.w.conv
        },
    )
}

pub open spec fn spec_fail(o: Outcome, message: Seq<char>) -> Outcome {
    let o1 = emit(o, RealtimeEffectView::AddErrorMessage(message));
    if spec_is_live(o1.w.conv.phase) {
        spec_request_close(o1, None)
    } else {
        emit(spec_reset(o1), RealtimeEffectView::RequestRedraw)
    }
}

pub open spec fn spec_start_conversation(o: Outcome) -> Outcome {
    let o1 = with_conv(
        o,
        RealtimeStateView {
            phase: RealtimeConversationPhase::Starting,
            requested_close: false,
            realtime_session_id: None,
            ..o.w.conv
        },
    );
    let o2 = emit(o1, RealtimeEffectView::SetFooterHintOverride(Some(footer_items())));
    let o3 = emit(o2, RealtimeEffectView::SubmitConversationStart);
    emit(o3, RealtimeEffectView::RequestRedraw)
}

pub open spec fn spec_on_started(o: Outcome, enabled: bool, session_id: Option<Seq<char>>) -> Outcome {
    if !enabled {
        spec_request_close(o, None)
    } else {
        let o1 = with_conv(o, RealtimeStateView { realtime_session_id: session_id, ..o.w.conv });
        let o2 = emit(o1, RealtimeEffectView::SetFooterHintOverride(Some(footer_items())));
        let o3 = with_conv(o2, RealtimeStateView { phase: RealtimeConversationPhase::Active, ..o2.w.conv });
        emit(spec_start_local_audio(o3), RealtimeEffectView::RequestRedraw)
    }
}

pub open spec fn spec_enqueue_audio(o: Outcome) -> Outcome {
    if !o.w.local_audio {
        o
    } else if o.w.conv.has_audio_player {
        emit(o, RealtimeEffectView::EnqueueAudioFrame)
    } else {
        emit(o, RealtimeEffectView::StartAudioPlayer { then_enqueue: true })
    }
}

pub open spec fn spec_interrupt_playback(o: Outcome) -> Outcome {
    if o.w.local_audio && o.w.conv.has_audio_player {
        emit(o, RealtimeEffectView::ClearAudioPlayback)
    } else {
        o
    }
}

/// Whether an item added to the conversation interrupts what is playing:
/// the user started speaking, or the response was cancelled.
pub open spec fn interrupts_playback(item: Json) -> bool {
    let t = json_as_str(json_get(item, "type"@));
    t == Some("input_audio_buffer.speech_started"@) || t == Some("response.cancelled"@)
}

pub open spec fn spec_on_closed(o: Outcome, reason: Option<Seq<char>>) -> Outcome {
    let requested = o.w.conv.requested_close;
    let o1 = spec_reset(o);
    let o2 = match reason {
        Some(r) => if !requested && r != "error"@ {
            emit(o1, RealtimeEffectView::AddInfoMessage("Realtime voice mode closed: "@ + r))
        } else {
            o1
        },
        None => o1,
    };
    emit(o2, RealtimeEffectView::RequestRedraw)
}

pub open spec fn spec_restart_device(o: Outcome, kind: RealtimeAudioDeviceKind) -> Outcome {
    if !o.w.local_audio || o.w.conv.phase != RealtimeConversationPhase::Active {
        o
    } else {
        match kind {
            RealtimeAudioDeviceKind::Microphone => emit(
                spec_start_local_audio(spec_stop_microphone(o)),
                RealtimeEffectView::RequestRedraw,
            ),
            RealtimeAudioDeviceKind::Speaker => emit(
                emit(spec_stop_speaker(o), RealtimeEffectView::RestartSpeakerOutput),
                RealtimeEffectView::RequestRedraw,
            ),
        }
    }
}

pub open spec fn spec_on_capture_started(o: Outcome, placeholder_id: Seq<char>) -> Outcome {
    let c = o.w.conv;
    let o1 = with_conv(
        o,
        RealtimeStateView {
            meter_placeholder_id: Some(placeholder_id),
            has_capture_stop_flag: true,
            has_capture: true,
            ..c
        },
    );
    let o2 = emit(emit(o1, RealtimeEffectView::RequestRedraw), RealtimeEffectView::SpawnMeterTask(placeholder_id));
    if c.has_audio_player {
        o2
    } else {
        emit(o2, RealtimeEffectView::StartAudioPlayer { then_enqueue: false })
    }
}

pub open spec fn spec_on_audio_player_started(o: Outcome, started: bool, then_enqueue: bool) -> Outcome {
    let o1 = with_conv(o, RealtimeStateView { has_audio_player: started, ..o.w.conv });
    if started && then_enqueue {
        emit(o1, RealtimeEffectView::EnqueueAudioFrame)
    } else {
        o1
    }
}

pub open spec fn start_of(w: WidgetView) -> Outcome {
    Outcome { w, fx: Seq::empty() }
}

pub open spec fn now(w: WidgetView, fx: Seq<RealtimeEffect>) -> Outcome {
    Outcome { w, fx: effects_view(fx) }
}

fn push_effect(fx: &mut Vec<RealtimeEffect>, e: RealtimeEffect)
    ensures
        effects_view(final(fx)@) == effects_view(old(fx)@).push(e@),
{
    let ghost before = fx@;
    fx.push(e);
    proof { assert(effects_view(fx@) =~= effects_view(before).push(e@)); }
}

/// `prefix` followed by `text`.
fn concat(prefix: &str, text: &str) -> (res: String)
    ensures
        res@ == prefix@ + text@,
{
    let mut s = owned(prefix);
    push_str(&mut s, text);
    s
}

impl ChatWidget {
    /// The footer hints shown while a conversation runs.
    pub fn realtime_footer_hint_items() -> (res: Vec<(String, String)>)
        ensures
            pairs_view(res@) == footer_items(),
    {
        let mut items: Vec<(String, String)> = Vec::new();
        items.push((owned("/realtime"), owned("stop live voice")));
        proof { assert(pairs_view(items@) =~= footer_items()); }
        items
    }

    fn stop_microphone_into(&mut self, fx: &mut Vec<RealtimeEffect>)
        ensures
            ({
                let o = spec_stop_microphone(now(old(self)@, old(fx)@));
                final(self)@ == o.w && effects_view(final(fx)@) == o.fx
            }),
    {
        if self.realtime_conversation.has_capture_stop_flag {
            self.realtime_conversation.has_capture_stop_flag = false;
            push_effect(fx, RealtimeEffect::SignalCaptureStop);
        }
        if self.realtime_conversation.has_capture {
            self.realtime_conversation.has_capture = false;
            push_effect(fx, RealtimeEffect::StopCapture);
        }
        if let Some(id) = self.realtime_conversation.meter_placeholder_id.take() {
            push_effect(fx, RealtimeEffect::RemoveMeterPlaceholder(id));
        }
    }

    fn stop_speaker_into(&mut self, fx: &mut Vec<RealtimeEffect>)
        ensures
            ({
                let o = spec_stop_speaker(now(old(self)@, old(fx)@));
                final(self)@ == o.w && effects_view(final(fx)@) == o.fx
            }),
    {
        if self.realtime_conversation.has_audio_player {
            self.realtime_conversation.has_audio_player = false;
            push_effect(fx, RealtimeEffect::StopAudioPlayer);
        }
    }

    fn stop_local_audio_into(&mut self, fx: &mut Vec<RealtimeEffect>)
        ensures
            ({
                let o = spec_stop_local_audio(now(old(self)@, old(fx)@));
                final(self)@ == o.w && effects_view(final(fx)@) == o.fx
            }),
    {
        if self.local_audio {
            self.stop_microphone_into(fx);
            self.stop_speaker_into(fx);
        }
    }

    fn start_local_audio_into(&mut self, fx: &mut Vec<RealtimeEffect>)
        ensures
            ({
                let o = spec_start_local_audio(now(old(self)@, old(fx)@));
                final(self)@ == o.w && effects_view(final(fx)@) == o.fx
            }),
    {
        if self.local_audio && !self.realtime_conversation.has_capture_stop_flag {
            push_effect(fx, RealtimeEffect::StartMicrophoneCapture);
        }
    }

    fn request_close_into(&mut self, info_message: Option<String>, fx: &mut Vec<RealtimeEffect>)
        ensures
            ({
                let o = spec_request_close(now(old(self)@, old(fx)@), opt_string_view(info_message));
                final(self)@ == o.w && effects_view(final(fx)@) == o.fx
            }),
    {
        if !self.realtime_conversation.is_live() {
            if let Some(message) = info_message {
                push_effect(fx, RealtimeEffect::AddInfoMessage(message));
            }
            return;
        }
        self.realtime_conversation.requested_close = true;
        self.realtime_conversation.phase = RealtimeConversationPhase::Stopping;
        push_effect(fx, RealtimeEffect::SubmitConversationClose);
        self.stop_local_audio_into(fx);
        push_effect(fx, RealtimeEffect::SetFooterHintOverride(None));
        match info_message {
            Some(message) => push_effect(fx, RealtimeEffect::AddInfoMessage(message)),
            None => push_effect(fx, RealtimeEffect::RequestRedraw),
        }
    }

    fn reset_into(&mut self, fx: &mut Vec<RealtimeEffect>)
        ensures
            ({
                let o = spec_reset(now(old(self)@, old(fx)@));
                final(self)@ == o.w && effects_view(final(fx)@) == o.fx
            }),
    {
        self.stop_local_audio_into(fx);
        push_effect(fx, RealtimeEffect::SetFooterHintOverride(None));
        self.realtime_conversation.phase = RealtimeConversationPhase::Inactive;
        self.realtime_conversation.requested_close = false;
        self.realtime_conversation.realtime_session_id = None;
    }

    fn fail_into(&mut self, message: String, fx: &mut Vec<RealtimeEffect>)
        ensures
            ({
                let o = spec_fail(now(old(self)@, old(fx)@), message@);
                final(self)@ == o.w && effects_view(final(fx)@) == o.fx
            }),
    {
        push_effect(fx, RealtimeEffect::AddErrorMessage(message));
        if self.realtime_conversation.is_live() {
            self.request_close_into(None, fx);
        } else {
            self.reset_into(fx);
            push_effect(fx, RealtimeEffect::RequestRedraw);
        }
    }

    fn enqueue_into(&mut self, fx: &mut Vec<RealtimeEffect>)
        ensures
            ({
                let o = spec_enqueue_audio(now(old(self)@, old(fx)@));
                final(self)@ == o.w && effects_view(final(fx)@) == o.fx
            }),
    {
        if self.local_audio {
            if self.realtime_conversation.has_audio_player {
                push_effect(fx, RealtimeEffect::EnqueueAudioFrame);
            } else {
                push_effect(fx, RealtimeEffect::StartAudioPlayer { then_enqueue: true });
            }
        }
    }

    fn interrupt_into(&mut self, fx: &mut Vec<RealtimeEffect>)
        ensures
            ({
                let o = spec_interrupt_playback(now(old(self)@, old(fx)@));
                final(self)@ == o.w && effects_view(final(fx)@) == o.fx
            }),
    {
        if self.local_audio && self.realtime_conversation.has_audio_player {
            push_effect(fx, RealtimeEffect::ClearAudioPlayback);
        }
    }
}

fn no_effects() -> (res: Vec<RealtimeEffect>)
    ensures
        effects_view(res@) == Seq::<RealtimeEffectView>::empty(),
{
    let res: Vec<RealtimeEffect> = Vec::new();
    proof { assert(effects_view(res@) =~= Seq::<RealtimeEffectView>::empty()); }
    res
}

impl ChatWidget {
    /// Closes the conversation at the user's request.
    pub fn stop_realtime_conversation_from_ui(&mut self) -> (res: Vec<RealtimeEffect>)
        ensures
            ({
                let o = spec_request_close(start_of(old(self)@), None);
                final(self)@ == o.w && effects_view(res@) == o.fx
            }),
    {
        let mut fx = no_effects();
        self.request_close_into(None, &mut fx);
        fx
    }

    /// Starts a conversation: asks the server for one and shows how to stop it.
    pub fn start_realtime_conversation(&mut self) -> (res: Vec<RealtimeEffect>)
        ensures
            ({
                let o = spec_start_conversation(start_of(old(self)@));
                final(self)@ == o.w && effects_view(res@) == o.fx
            }),
    {
        let mut fx = no_effects();
        self.realtime_conversation.phase = RealtimeConversationPhase::Starting;
        self.realtime_conversation.requested_close = false;
        self.realtime_conversation.realtime_session_id = None;
        push_effect(&mut fx, RealtimeEffect::SetFooterHintOverride(Some(Self::realtime_footer_hint_items())));
        push_effect(&mut fx, RealtimeEffect::SubmitConversationStart);
        push_effect(&mut fx, RealtimeEffect::RequestRedraw);
        fx
    }

    /// Closes a live conversation, stopping the local audio; shows `info_message` either way.
    pub fn request_realtime_conversation_close(&mut self, info_message: Option<String>) -> (res: Vec<RealtimeEffect>)
        ensures
            ({
                let o = spec_request_close(start_of(old(self)@), opt_string_view(info_message));
                final(self)@ == o.w && effects_view(res@) == o.fx
            }),
    {
        let mut fx = no_effects();
        self.request_close_into(info_message, &mut fx);
        fx
    }

    /// Forgets the conversation and stops the local audio.
    pub fn reset_realtime_conversation_state(&mut self) -> (res: Vec<RealtimeEffect>)
        ensures
            ({
                let o = spec_reset(start_of(old(self)@));
                final(self)@ == o.w && effects_view(res@) == o.fx
            }),
    {
        let mut fx = no_effects();
        self.reset_into(&mut fx);
        fx
    }

    /// Shows `message` as an error and ends the conversation.
    pub fn fail_realtime_conversation(&mut self, message: String) -> (res: Vec<RealtimeEffect>)
        ensures
            ({
                let o = spec_fail(start_of(old(self)@), message@);
                final(self)@ == o.w && effects_view(res@) == o.fx
            }),
    {
        let mut fx = no_effects();
        self.fail_into(message, &mut fx);
        fx
    }

    /// The server started the conversation: it becomes active and the local audio starts; where realtime conversations are not enabled, it is closed instead.
    pub fn on_realtime_conversation_started(&mut self, conversation_enabled: bool, realtime_session_id: Option<String>) -> (res: Vec<RealtimeEffect>)
        ensures
            ({
                let o = spec_on_started(start_of(old(self)@), conversation_enabled, opt_string_view(realtime_session_id));
                final(self)@ == o.w && effects_view(res@) == o.fx
            }),
    {
        let mut fx = no_effects();
        if !conversation_enabled {
            self.request_close_into(None, &mut fx);
        } else {
            self.realtime_conversation.realtime_session_id = realtime_session_id;
            push_effect(&mut fx, RealtimeEffect::SetFooterHintOverride(Some(Self::realtime_footer_hint_items())));
            self.realtime_conversation.phase = RealtimeConversationPhase::Active;
            self.start_local_audio_into(&mut fx);
            push_effect(&mut fx, RealtimeEffect::RequestRedraw);
        }
        fx
    }

    /// Audio from the server arrived: it is played.
    pub fn on_realtime_output_audio_delta(&mut self) -> (res: Vec<RealtimeEffect>)
        ensures
            ({
                let o = spec_enqueue_audio(start_of(old(self)@));
                final(self)@ == o.w && effects_view(res@) == o.fx
            }),
    {
        let mut fx = no_effects();
        self.enqueue_into(&mut fx);
        fx
    }

    /// Plays a received audio frame, starting the audio player where there is none.
    pub fn enqueue_realtime_audio_out(&mut self) -> (res: Vec<RealtimeEffect>)
        ensures
            ({
                let o = spec_enqueue_audio(start_of(old(self)@));
                final(self)@ == o.w && effects_view(res@) == o.fx
            }),
    {
        let mut fx = no_effects();
        self.enqueue_into(&mut fx);
        fx
    }

    /// Drops what the audio player has queued.
    pub fn interrupt_realtime_audio_playback(&mut self) -> (res: Vec<RealtimeEffect>)
        ensures
            ({
                let o = spec_interrupt_playback(start_of(old(self)@));
                final(self)@ == o.w && effects_view(res@) == o.fx
            }),
    {
        let mut fx = no_effects();
        self.interrupt_into(&mut fx);
        fx
    }

    /// An item was added to the conversation: where the user started speaking or the response was cancelled, playback stops.
    pub fn on_realtime_item_added(&mut self, item: &Json) -> (res: Vec<RealtimeEffect>)
        ensures
            ({
                let o = if interrupts_playback(*item) { spec_interrupt_playback(start_of(old(self)@)) } else { start_of(old(self)@) };
                final(self)@ == o.w && effects_view(res@) == o.fx
            }),
    {
        let mut fx = no_effects();
        let kind = get_str(item, "type");
        let interrupts = match kind {
            Some(t) => str_eq(t, "input_audio_buffer.speech_started") || str_eq(t, "response.cancelled"),
            None => false,
        };
        if interrupts {
            self.interrupt_into(&mut fx);
        }
        fx
    }

    /// The server reported an error: it is shown and the conversation ends.
    pub fn on_realtime_error(&mut self, message: &str) -> (res: Vec<RealtimeEffect>)
        ensures
            ({
                let o = spec_fail(start_of(old(self)@), "Realtime voice error: "@ + message@);
                final(self)@ == o.w && effects_view(res@) == o.fx
            }),
    {
        let mut fx = no_effects();
        self.fail_into(concat("Realtime voice error: ", message), &mut fx);
        fx
    }

    /// The server closed the conversation: it is forgotten, with the reason shown where the user did not ask for it and it is not an error.
    pub fn on_realtime_conversation_closed(&mut self, reason: Option<String>) -> (res: Vec<RealtimeEffect>)
        ensures
            ({
                let o = spec_on_closed(start_of(old(self)@), opt_string_view(reason));
                final(self)@ == o.w && effects_view(res@) == o.fx
            }),
    {
        let mut fx = no_effects();
        let requested = self.realtime_conversation.requested_close;
        self.reset_into(&mut fx);
        if let Some(r) = reason {
            if !requested && !str_eq(r.as_str(), "error") {
                push_effect(&mut fx, RealtimeEffect::AddInfoMessage(concat("Realtime voice mode closed: ", r.as_str())));
            }
        }
        push_effect(&mut fx, RealtimeEffect::RequestRedraw);
        fx
    }

    /// Starts the microphone capture, where none runs.
    pub fn start_realtime_local_audio(&mut self) -> (res: Vec<RealtimeEffect>)
        ensures
            ({
                let o = spec_start_local_audio(start_of(old(self)@));
                final(self)@ == o.w && effects_view(res@) == o.fx
            }),
    {
        let mut fx = no_effects();
        self.start_local_audio_into(&mut fx);
        fx
    }

    /// Stops the microphone and the speaker.
    pub fn stop_realtime_local_audio(&mut self) -> (res: Vec<RealtimeEffect>)
        ensures
            ({
                let o = spec_stop_local_audio(start_of(old(self)@));
                final(self)@ == o.w && effects_view(res@) == o.fx
            }),
    {
        let mut fx = no_effects();
        self.stop_local_audio_into(&mut fx);
        fx
    }

    /// Stops the microphone capture and removes its meter.
    pub fn stop_realtime_microphone(&mut self) -> (res: Vec<RealtimeEffect>)
        ensures
            ({
                let o = spec_stop_microphone(start_of(old(self)@));
                final(self)@ == o.w && effects_view(res@) == o.fx
            }),
    {
        let mut fx = no_effects();
        self.stop_microphone_into(&mut fx);
        fx
    }

    /// Stops the audio player.
    pub fn stop_realtime_speaker(&mut self) -> (res: Vec<RealtimeEffect>)
        ensures
            ({
                let o = spec_stop_speaker(start_of(old(self)@));
                final(self)@ == o.w && effects_view(res@) == o.fx
            }),
    {
        let mut fx = no_effects();
        self.stop_speaker_into(&mut fx);
        fx
    }

    /// Restarts an audio device of an active conversation.
    pub fn restart_realtime_audio_device(&mut self, kind: RealtimeAudioDeviceKind) -> (res: Vec<RealtimeEffect>)
        ensures
            ({
                let o = spec_restart_device(start_of(old(self)@), kind);
                final(self)@ == o.w && effects_view(res@) == o.fx
            }),
    {
        let mut fx = no_effects();
        if self.local_audio && self.realtime_conversation.is_active() {
            match kind {
                RealtimeAudioDeviceKind::Microphone => {
                    self.stop_microphone_into(&mut fx);
                    self.start_local_audio_into(&mut fx);
                },
                RealtimeAudioDeviceKind::Speaker => {
                    self.stop_speaker_into(&mut fx);
                    push_effect(&mut fx, RealtimeEffect::RestartSpeakerOutput);
                },
            }
            push_effect(&mut fx, RealtimeEffect::RequestRedraw);
        }
        fx
    }

    /// The microphone capture started, with its meter shown under `meter_placeholder_id`: the meter is animated, and the audio player started where there is none.
    pub fn on_microphone_capture_started(&mut self, meter_placeholder_id: String) -> (res: Vec<RealtimeEffect>)
        ensures
            ({
                let o = spec_on_capture_started(start_of(old(self)@), meter_placeholder_id@);
                final(self)@ == o.w && effects_view(res@) == o.fx
            }),
    {
        let mut fx = no_effects();
        let had_player = self.realtime_conversation.has_audio_player;
        self.start_realtime_meter(meter_placeholder_id, &mut fx);
        self.realtime_conversation.has_capture_stop_flag = true;
        self.realtime_conversation.has_capture = true;
        if !had_player {
            push_effect(&mut fx, RealtimeEffect::StartAudioPlayer { then_enqueue: false });
        }
        fx
    }

    /// The microphone capture could not start: the error is shown and the conversation ends.
    pub fn on_microphone_capture_failed(&mut self, error: &str) -> (res: Vec<RealtimeEffect>)
        ensures
            ({
                let o = spec_fail(start_of(old(self)@), "Failed to start microphone capture: "@ + error@);
                final(self)@ == o.w && effects_view(res@) == o.fx
            }),
    {
        let mut fx = no_effects();
        self.fail_into(concat("Failed to start microphone capture: ", error), &mut fx);
        fx
    }

    /// The audio player started, or not; the waiting frame is played where it did.
    pub fn on_audio_player_started(&mut self, started: bool, then_enqueue: bool) -> (res: Vec<RealtimeEffect>)
        ensures
            ({
                let o = spec_on_audio_player_started(start_of(old(self)@), started, then_enqueue);
                final(self)@ == o.w && effects_view(res@) == o.fx
            }),
    {
        let mut fx = no_effects();
        self.realtime_conversation.has_audio_player = started;
        if started && then_enqueue {
            push_effect(&mut fx, RealtimeEffect::EnqueueAudioFrame);
        }
        fx
    }

    /// The restarted audio player runs.
    pub fn on_speaker_output_started(&mut self) -> (res: Vec<RealtimeEffect>)
        ensures
            ({
                let o = with_conv(start_of(old(self)@), RealtimeStateView { has_audio_player: true, ..old(self)@.conv });
                final(self)@ == o.w && effects_view(res@) == o.fx
            }),
    {
        self.realtime_conversation.has_audio_player = true;
        no_effects()
    }

    /// The audio player could not restart: the error is shown and the conversation ends.
    pub fn on_speaker_output_failed(&mut self, error: &str) -> (res: Vec<RealtimeEffect>)
        ensures
            ({
                let o = spec_fail(start_of(old(self)@), "Failed to start speaker output: "@ + error@);
                final(self)@ == o.w && effects_view(res@) == o.fx
            }),
    {
        let mut fx = no_effects();
        self.fail_into(concat("Failed to start speaker output: ", error), &mut fx);
        fx
    }

    /// A session description arrived; nothing changes.
    pub fn on_realtime_conversation_sdp(&mut self, _sdp: String) -> (res: Vec<RealtimeEffect>)
        ensures
            ({
                let o = start_of(old(self)@);
                final(self)@ == o.w && effects_view(res@) == o.fx
            }),
    {
        no_effects()
    }

    /// The meter of a started capture is shown under `meter_placeholder_id`:
    /// it is recorded, redrawn and animated.
    fn start_realtime_meter(&mut self, meter_placeholder_id: String, fx: &mut Vec<RealtimeEffect>)
        ensures
            final(self)@ == (WidgetView {
                conv: RealtimeStateView { meter_placeholder_id: Some(meter_placeholder_id@), ..old(self)@.conv },
                ..old(self)@
            }),
            effects_view(final(fx)@) == effects_view(old(fx)@).push(RealtimeEffectView::RequestRedraw).push(
                RealtimeEffectView::SpawnMeterTask(meter_placeholder_id@),
            ),
    {
        self.realtime_conversation.meter_placeholder_id = Some(meter_placeholder_id.clone());
        push_effect(fx, RealtimeEffect::RequestRedraw);
        push_effect(fx, RealtimeEffect::SpawnMeterTask(meter_placeholder_id));
    }

    /// The recording meter `id` was deleted: where it belongs to a live
    /// conversation, the conversation is closed; whether it was.
    pub fn stop_realtime_conversation_for_deleted_meter(&mut self, id: &str) -> (res: (bool, Vec<RealtimeEffect>))
        ensures
            ({
                let w = old(self)@;
                let hit = w.local_audio && spec_is_live(w.conv.phase) && w.conv.meter_placeholder_id == Some(id@);
                let o = if hit {
                    spec_request_close(
                        with_conv(start_of(w), RealtimeStateView { meter_placeholder_id: None, ..w.conv }),
                        None,
                    )
                } else {
                    start_of(w)
                };
                res.0 == hit && final(self)@ == o.w && effects_view(res.1@) == o.fx
            }),
    {
        let mut fx = no_effects();
        let hit = self.local_audio && self.realtime_conversation.is_live() && match &self.realtime_conversation.meter_placeholder_id {
            Some(m) => str_eq(m.as_str(), id),
            None => false,
        };
        if hit {
            self.realtime_conversation.meter_placeholder_id = None;
            self.request_close_into(None, &mut fx);
        }
        (hit, fx)
    }
}

// ---------------------------------------------------------------------------
// Laws of the conversation.

/// Whether the view holds no device and no meter.
pub open spec fn holds_no_device(c: RealtimeStateView) -> bool {
    !c.has_capture_stop_flag && !c.has_capture && !c.has_audio_player && c.meter_placeholder_id is None
}

/// After a reset no conversation is under way, nothing is pending, and on a
/// platform with local audio no device is held.
pub proof fn law_reset_forgets_conversation(o: Outcome)
    ensures
        ({
            let c = spec_reset(o).w.conv;
            &&& c.phase == RealtimeConversationPhase::Inactive
            &&& !c.requested_close
            &&& c.realtime_session_id is None
            &&& o.w.local_audio ==> holds_no_device(c)
        }),
{
}

/// Stopping the local audio releases every device it held, each once.
pub proof fn law_stop_releases_devices(w: WidgetView)
    requires
        w.local_audio,
    ensures
        ({
            let o = spec_stop_local_audio(start_of(w));
            &&& holds_no_device(o.w.conv)
            &&& o.fx.contains(RealtimeEffectView::SignalCaptureStop) == w.conv.has_capture_stop_flag
            &&& o.fx.contains(RealtimeEffectView::StopCapture) == w.conv.has_capture
            &&& o.fx.contains(RealtimeEffectView::StopAudioPlayer) == w.conv.has_audio_player
        }),
{
    let o = spec_stop_local_audio(start_of(w));
    let c = w.conv;
    if c.has_capture_stop_flag {
        assert(o.fx[0] == RealtimeEffectView::SignalCaptureStop);
    }
    if c.has_capture {
        let k: int = if c.has_capture_stop_flag { 1 } else { 0 };
        assert(o.fx[k] == RealtimeEffectView::StopCapture);
    }
    if c.has_audio_player {
        assert(o.fx[o.fx.len() - 1] == RealtimeEffectView::StopAudioPlayer);
    }
}

/// Closing a conversation that is not under way changes nothing; it only
/// shows the message given.
pub proof fn law_close_when_idle_changes_nothing(o: Outcome, info: Option<Seq<char>>)
    requires
        !spec_is_live(o.w.conv.phase),
    ensures
        spec_request_close(o, info).w == o.w,
        spec_request_close(o, info).fx == match info {
            Some(m) => o.fx.push(RealtimeEffectView::AddInfoMessage(m)),
            None => o.fx,
        },
{
}

/// Closing a live conversation asks the server to close it and leaves it
/// stopping, with the close recorded as asked for.
pub proof fn law_close_when_live_stops(w: WidgetView, info: Option<Seq<char>>)
    requires
        spec_is_live(w.conv.phase),
    ensures
        ({
            let o = spec_request_close(start_of(w), info);
            &&& o.w.conv.phase == RealtimeConversationPhase::Stopping
            &&& o.w.conv.requested_close
            &&& o.fx[0] == RealtimeEffectView::SubmitConversationClose
        }),
{
}

/// A close that the user asked for is not announced when the server
/// confirms it.
pub proof fn law_requested_close_is_not_announced(w: WidgetView, reason: Option<Seq<char>>)
    requires
        spec_is_live(w.conv.phase),
    ensures
        ({
            let closing = spec_request_close(start_of(w), None).w;
            let o = spec_on_closed(start_of(closing), reason);
            forall|i: int| 0 <= i < o.fx.len() ==> !(#[trigger] o.fx[i] is AddInfoMessage)
        }),
{
    let closing = spec_request_close(start_of(w), None).w;
    let r = spec_reset(start_of(closing));
    let o = spec_on_closed(start_of(closing), reason);
    assert(closing.conv.requested_close);
    assert forall|i: int| 0 <= i < o.fx.len() implies !(#[trigger] o.fx[i] is AddInfoMessage) by {
        if i < r.fx.len() {
            assert(o.fx[i] == r.fx[i]);
        }
    }
}

/// A failure is shown first, and leaves no conversation running: it ends
/// stopping (a live one) or inactive.
pub proof fn law_failure_ends_conversation(w: WidgetView, message: Seq<char>)
    ensures
        ({
            let o = spec_fail(start_of(w), message);
            &&& o.fx[0] == RealtimeEffectView::AddErrorMessage(message)
            &&& o.w.conv.phase == RealtimeConversationPhase::Stopping || o.w.conv.phase == RealtimeConversationPhase::Inactive
        }),
{
    let o1 = emit(start_of(w), RealtimeEffectView::AddErrorMessage(message));
    let o = spec_fail(start_of(w), message);
    if spec_is_live(w.conv.phase) {
        let c = spec_request_close(o1, None);
        assert(c.fx[0] == o1.fx[0]);
    } else {
        assert(o.fx[0] == o1.fx[0]);
    }
}


/// When the microphone capture starts, an audio player is asked for exactly
/// when none is held: a running player is kept, not started again.
pub proof fn law_capture_start_keeps_running_player(w: WidgetView, placeholder_id: Seq<char>)
    ensures
        ({
            let o = spec_on_capture_started(start_of(w), placeholder_id);
            &&& (exists|i: int| 0 <= i < o.fx.len() && #[trigger] o.fx[i] is StartAudioPlayer) <==> !w.conv.has_audio_player
            &&& o.w.conv.has_audio_player == w.conv.has_audio_player
            &&& o.w.conv.has_capture && o.w.conv.has_capture_stop_flag
            &&& o.w.conv.meter_placeholder_id == Some(placeholder_id)
        }),
{
    let o = spec_on_capture_started(start_of(w), placeholder_id);
    assert(o.fx[0] == RealtimeEffectView::RequestRedraw);
    assert(o.fx[1] == RealtimeEffectView::SpawnMeterTask(placeholder_id));
    if !w.conv.has_audio_player {
        assert(o.fx[2] is StartAudioPlayer);
    } else {
        assert(o.fx.len() == 2);
    }
}

} // verus!
