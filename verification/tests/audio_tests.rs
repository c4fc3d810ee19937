use vsrg_renderer::audio::{
    engine_paused_after_play, engine_paused_after_seek, is_playing, pause_needed, play_step,
    resume_after_seek, PlayStep, SeekOutcome, SinkStatus,
};

const PLAYING: SinkStatus = SinkStatus { empty: false, paused: false };
const PAUSED: SinkStatus = SinkStatus { empty: false, paused: true };
const EMPTY: SinkStatus = SinkStatus { empty: true, paused: true };

#[test]
fn playing_needs_unpaused_engine_and_sink() {
    assert!(is_playing(false, Some(PLAYING)));
    assert!(!is_playing(true, Some(PLAYING)));
    assert!(!is_playing(false, Some(PAUSED)));
    assert!(!is_playing(false, Some(EMPTY)));
    assert!(!is_playing(false, None));
}

#[test]
fn play_steps() {
    assert_eq!(play_step(None), PlayStep::NoSink);
    assert_eq!(play_step(Some(EMPTY)), PlayStep::LoadThenResume);
    assert_eq!(play_step(Some(PAUSED)), PlayStep::Resume);
    assert_eq!(play_step(Some(PLAYING)), PlayStep::Nothing);
    assert!(engine_paused_after_play(false, PlayStep::NoSink, true));
    assert!(engine_paused_after_play(true, PlayStep::LoadThenResume, false));
    assert!(!engine_paused_after_play(true, PlayStep::LoadThenResume, true));
    assert!(!engine_paused_after_play(true, PlayStep::Resume, false));
    assert!(engine_paused_after_play(true, PlayStep::Nothing, false));
    assert!(pause_needed(Some(PLAYING)));
    assert!(!pause_needed(Some(PAUSED)));
    assert!(!pause_needed(None));
}

#[test]
fn seek_keeps_playback_state_when_audio_loads() {
    assert!(!engine_paused_after_seek(false, true, SeekOutcome::Loaded));
    assert!(engine_paused_after_seek(false, false, SeekOutcome::Loaded));
    assert!(resume_after_seek(true, SeekOutcome::Loaded));
    assert!(!resume_after_seek(false, SeekOutcome::Loaded));
    assert!(!resume_after_seek(true, SeekOutcome::SourceFailed));
    assert!(engine_paused_after_seek(false, true, SeekOutcome::SinkUnavailable));
    assert!(engine_paused_after_seek(false, true, SeekOutcome::NoSource));
    assert!(!engine_paused_after_seek(false, true, SeekOutcome::SourceFailed));
    assert!(engine_paused_after_seek(true, false, SeekOutcome::SourceFailed));
}
