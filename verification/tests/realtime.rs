use codexx::json::Json;
use codexx::realtime::ChatWidget;
use codexx::realtime::RealtimeAudioDeviceKind;
use codexx::realtime::RealtimeConversationPhase;
use codexx::realtime::RealtimeConversationUiState;
use codexx::realtime::RealtimeEffect;

fn widget(local_audio: bool) -> ChatWidget {
    ChatWidget { realtime_conversation: RealtimeConversationUiState::new(), local_audio }
}

fn footer() -> Vec<(String, String)> {
    vec![("/realtime".to_string(), "stop live voice".to_string())]
}

fn item_of_type(t: &str) -> Json {
    Json::Object(vec![("type".to_string(), Json::String(t.to_string()))])
}

/// A widget whose conversation is active, with the microphone and player running.
fn active_widget() -> ChatWidget {
    let mut w = widget(true);
    let _ = w.start_realtime_conversation();
    let _ = w.on_realtime_conversation_started(true, Some("sess".to_string()));
    let _ = w.on_microphone_capture_started("meter-1".to_string());
    let _ = w.on_audio_player_started(true, false);
    w
}

#[test]
fn starting_asks_the_server_and_shows_how_to_stop() {
    let mut w = widget(true);
    let fx = w.start_realtime_conversation();
    assert_eq!(w.realtime_conversation.phase, RealtimeConversationPhase::Starting);
    assert!(w.realtime_conversation.is_live());
    assert!(!w.realtime_conversation.is_active());
    assert_eq!(
        fx,
        vec![
            RealtimeEffect::SetFooterHintOverride(Some(footer())),
            RealtimeEffect::SubmitConversationStart,
            RealtimeEffect::RequestRedraw,
        ]
    );
    assert_eq!(ChatWidget::realtime_footer_hint_items(), footer());
}

#[test]
fn a_started_conversation_becomes_active_and_records() {
    let mut w = widget(true);
    let _ = w.start_realtime_conversation();
    let fx = w.on_realtime_conversation_started(true, Some("sess".to_string()));
    assert_eq!(w.realtime_conversation.phase, RealtimeConversationPhase::Active);
    assert_eq!(w.realtime_conversation.realtime_session_id, Some("sess".to_string()));
    assert_eq!(
        fx,
        vec![
            RealtimeEffect::SetFooterHintOverride(Some(footer())),
            RealtimeEffect::StartMicrophoneCapture,
            RealtimeEffect::RequestRedraw,
        ]
    );
    let fx = w.on_microphone_capture_started("meter-1".to_string());
    assert_eq!(
        fx,
        vec![
            RealtimeEffect::RequestRedraw,
            RealtimeEffect::SpawnMeterTask("meter-1".to_string()),
            RealtimeEffect::StartAudioPlayer { then_enqueue: false },
        ]
    );
    assert_eq!(w.realtime_conversation.meter_placeholder_id, Some("meter-1".to_string()));
    assert_eq!(w.on_audio_player_started(true, false), vec![]);
    assert!(w.realtime_conversation.has_audio_player);
    assert_eq!(w.start_realtime_local_audio(), vec![]);
}

#[test]
fn a_disabled_conversation_is_closed_when_it_starts() {
    let mut w = widget(true);
    let _ = w.start_realtime_conversation();
    let fx = w.on_realtime_conversation_started(false, Some("sess".to_string()));
    assert_eq!(w.realtime_conversation.phase, RealtimeConversationPhase::Stopping);
    assert_eq!(
        fx,
        vec![
            RealtimeEffect::SubmitConversationClose,
            RealtimeEffect::SetFooterHintOverride(None),
            RealtimeEffect::RequestRedraw,
        ]
    );
}

#[test]
fn closing_stops_the_devices() {
    let mut w = active_widget();
    let fx = w.stop_realtime_conversation_from_ui();
    assert_eq!(w.realtime_conversation.phase, RealtimeConversationPhase::Stopping);
    assert!(w.realtime_conversation.requested_close);
    assert_eq!(
        fx,
        vec![
            RealtimeEffect::SubmitConversationClose,
            RealtimeEffect::SignalCaptureStop,
            RealtimeEffect::StopCapture,
            RealtimeEffect::RemoveMeterPlaceholder("meter-1".to_string()),
            RealtimeEffect::StopAudioPlayer,
            RealtimeEffect::SetFooterHintOverride(None),
            RealtimeEffect::RequestRedraw,
        ]
    );
    let fx = w.on_realtime_conversation_closed(Some("done".to_string()));
    assert_eq!(w.realtime_conversation.phase, RealtimeConversationPhase::Inactive);
    assert_eq!(fx, vec![RealtimeEffect::SetFooterHintOverride(None), RealtimeEffect::RequestRedraw]);
}

#[test]
fn closing_when_idle_only_shows_the_message() {
    let mut w = widget(true);
    let fx = w.request_realtime_conversation_close(Some("nothing to stop".to_string()));
    assert_eq!(fx, vec![RealtimeEffect::AddInfoMessage("nothing to stop".to_string())]);
    assert_eq!(w.realtime_conversation.phase, RealtimeConversationPhase::Inactive);
    assert_eq!(w.stop_realtime_conversation_from_ui(), vec![]);
}

#[test]
fn an_unrequested_close_is_announced_unless_it_is_an_error() {
    let mut w = active_widget();
    let fx = w.on_realtime_conversation_closed(Some("timeout".to_string()));
    assert_eq!(fx.last(), Some(&RealtimeEffect::RequestRedraw));
    assert!(fx.contains(&RealtimeEffect::AddInfoMessage("Realtime voice mode closed: timeout".to_string())));
    assert_eq!(w.realtime_conversation.phase, RealtimeConversationPhase::Inactive);
    assert_eq!(w.realtime_conversation.realtime_session_id, None);

    let mut w = active_widget();
    let fx = w.on_realtime_conversation_closed(Some("error".to_string()));
    assert!(!fx.iter().any(|e| matches!(e, RealtimeEffect::AddInfoMessage(_))));
}

#[test]
fn errors_are_shown_and_end_the_conversation() {
    let mut w = active_widget();
    let fx = w.on_realtime_error("bad audio");
    assert_eq!(fx[0], RealtimeEffect::AddErrorMessage("Realtime voice error: bad audio".to_string()));
    assert_eq!(w.realtime_conversation.phase, RealtimeConversationPhase::Stopping);

    let mut w = widget(true);
    let fx = w.fail_realtime_conversation("late".to_string());
    assert_eq!(
        fx,
        vec![
            RealtimeEffect::AddErrorMessage("late".to_string()),
            RealtimeEffect::SetFooterHintOverride(None),
            RealtimeEffect::RequestRedraw,
        ]
    );
}

#[test]
fn capture_failure_ends_the_conversation() {
    let mut w = widget(true);
    let _ = w.start_realtime_conversation();
    let _ = w.on_realtime_conversation_started(true, None);
    let fx = w.on_microphone_capture_failed("no device");
    assert_eq!(fx[0], RealtimeEffect::AddErrorMessage("Failed to start microphone capture: no device".to_string()));
    assert_eq!(w.realtime_conversation.phase, RealtimeConversationPhase::Stopping);
}

#[test]
fn audio_starts_a_player_then_plays() {
    let mut w = widget(true);
    assert_eq!(w.on_realtime_output_audio_delta(), vec![RealtimeEffect::StartAudioPlayer { then_enqueue: true }]);
    assert_eq!(w.on_audio_player_started(true, true), vec![RealtimeEffect::EnqueueAudioFrame]);
    assert_eq!(w.enqueue_realtime_audio_out(), vec![RealtimeEffect::EnqueueAudioFrame]);
    let mut w = widget(false);
    assert_eq!(w.on_realtime_output_audio_delta(), vec![]);
}

#[test]
fn speech_and_cancellation_interrupt_playback() {
    let mut w = active_widget();
    assert_eq!(
        w.on_realtime_item_added(&item_of_type("input_audio_buffer.speech_started")),
        vec![RealtimeEffect::ClearAudioPlayback]
    );
    assert_eq!(w.on_realtime_item_added(&item_of_type("response.cancelled")), vec![RealtimeEffect::ClearAudioPlayback]);
    assert_eq!(w.on_realtime_item_added(&item_of_type("response.done")), vec![]);
    assert_eq!(w.on_realtime_item_added(&Json::Null), vec![]);
    assert_eq!(w.interrupt_realtime_audio_playback(), vec![RealtimeEffect::ClearAudioPlayback]);
}

#[test]
fn deleting_the_meter_closes_a_live_conversation() {
    let mut w = active_widget();
    let (closed, _) = w.stop_realtime_conversation_for_deleted_meter("other");
    assert!(!closed);
    let (closed, fx) = w.stop_realtime_conversation_for_deleted_meter("meter-1");
    assert!(closed);
    assert_eq!(fx[0], RealtimeEffect::SubmitConversationClose);
    assert!(!fx.contains(&RealtimeEffect::RemoveMeterPlaceholder("meter-1".to_string())));
    assert_eq!(w.realtime_conversation.meter_placeholder_id, None);
}

#[test]
fn restarting_devices_of_an_active_conversation() {
    let mut w = active_widget();
    let fx = w.restart_realtime_audio_device(RealtimeAudioDeviceKind::Microphone);
    assert_eq!(
        fx,
        vec![
            RealtimeEffect::SignalCaptureStop,
            RealtimeEffect::StopCapture,
            RealtimeEffect::RemoveMeterPlaceholder("meter-1".to_string()),
            RealtimeEffect::StartMicrophoneCapture,
            RealtimeEffect::RequestRedraw,
        ]
    );
    let fx = w.restart_realtime_audio_device(RealtimeAudioDeviceKind::Speaker);
    assert_eq!(
        fx,
        vec![RealtimeEffect::StopAudioPlayer, RealtimeEffect::RestartSpeakerOutput, RealtimeEffect::RequestRedraw]
    );
    assert_eq!(w.on_speaker_output_started(), vec![]);
    assert!(w.realtime_conversation.has_audio_player);
    let fx = w.on_speaker_output_failed("gone");
    assert_eq!(fx[0], RealtimeEffect::AddErrorMessage("Failed to start speaker output: gone".to_string()));

    let mut idle = widget(true);
    assert_eq!(idle.restart_realtime_audio_device(RealtimeAudioDeviceKind::Speaker), vec![]);
}

#[test]
fn without_local_audio_devices_are_left_alone() {
    let mut w = widget(false);
    let _ = w.start_realtime_conversation();
    let fx = w.on_realtime_conversation_started(true, None);
    assert_eq!(fx, vec![RealtimeEffect::SetFooterHintOverride(Some(footer())), RealtimeEffect::RequestRedraw]);
    assert_eq!(w.restart_realtime_audio_device(RealtimeAudioDeviceKind::Microphone), vec![]);
    assert_eq!(w.stop_realtime_local_audio(), vec![]);
}

#[test]
fn reset_forgets_everything() {
    let mut w = active_widget();
    let fx = w.reset_realtime_conversation_state();
    assert_eq!(fx.last(), Some(&RealtimeEffect::SetFooterHintOverride(None)));
    assert_eq!(w.realtime_conversation.phase, RealtimeConversationPhase::Inactive);
    assert!(!w.realtime_conversation.has_capture);
    assert!(!w.realtime_conversation.has_audio_player);
    assert_eq!(w.realtime_conversation.meter_placeholder_id, None);
    assert_eq!(w.stop_realtime_microphone(), vec![]);
    assert_eq!(w.stop_realtime_speaker(), vec![]);
    assert_eq!(w.on_realtime_conversation_sdp("v=0".to_string()), vec![]);
}
