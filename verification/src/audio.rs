//! Playback decisions of the audio manager.
//!
//! The program owns the audio device, the sink and the clock; it reports what the sink
//! says of itself and what each step of a call came to, and the functions here decide
//! what happens next.

use vstd::prelude::*;

verus! {

/// What the audio sink reports of itself.
#[derive(Debug, Clone, Copy, PartialEq, Eq, Structural)]
pub struct SinkStatus {
    /// The sink holds no audio.
    pub empty: bool,
    /// The sink is paused.
    pub paused: bool,
}

/// Audio is playing: the engine is not paused and there is a sink that holds audio and
/// is not paused.
pub open spec fn is_playing_spec(engine_paused: bool, sink: Option<SinkStatus>) -> bool {
    !engine_paused && (sink matches Some(s) && !s.empty && !s.paused)
}

/// Returns whether audio is playing.
pub fn is_playing(engine_paused: bool, sink: Option<SinkStatus>) -> (r: bool)
    ensures
        r == is_playing_spec(engine_paused, sink),
        engine_paused ==> !r,
        sink is None ==> !r,
        forall|s: SinkStatus| sink == Some(s) ==> (s.empty ==> !r) && (s.paused ==> !r),
        (!engine_paused && (sink matches Some(s) && !s.empty && !s.paused)) ==> r,
{
    !engine_paused && match sink {
        Some(s) => !s.empty && !s.paused,
        None => false,
    }
}

/// What a call to play does with the sink it finds.
#[derive(Debug, Clone, Copy, PartialEq, Eq, Structural)]
pub enum PlayStep {
    /// The sink is already playing: nothing changes.
    Nothing,
    /// The sink is paused with audio in it: resume it.
    Resume,
    /// The sink is empty: load the audio file into it, then resume it; if loading
    /// fails the engine stays paused.
    LoadThenResume,
    /// There is no sink: report it and keep the engine paused.
    NoSink,
}

/// Returns what a call to play does with `sink`.
pub fn play_step(sink: Option<SinkStatus>) -> (r: PlayStep)
    ensures
        r == (match sink {
            None => PlayStep::NoSink,
            Some(s) => if s.empty {
                PlayStep::LoadThenResume
            } else if s.paused {
                PlayStep::Resume
            } else {
                PlayStep::Nothing
            },
        }),
{
    match sink {
        None => PlayStep::NoSink,
        Some(s) => {
            if s.empty {
                PlayStep::LoadThenResume
            } else if s.paused {
                PlayStep::Resume
            } else {
                PlayStep::Nothing
            }
        },
    }
}

/// Whether the engine is paused once a call to play has done `step`; `loaded` tells
/// whether loading the audio succeeded (it is read only for `LoadThenResume`).
pub fn engine_paused_after_play(engine_paused: bool, step: PlayStep, loaded: bool) -> (r: bool)
    ensures
        r == (match step {
            PlayStep::Nothing => engine_paused,
            PlayStep::Resume => false,
            PlayStep::LoadThenResume => !loaded,
            PlayStep::NoSink => true,
        }),
{
    match step {
        PlayStep::Nothing => engine_paused,
        PlayStep::Resume => false,
        PlayStep::LoadThenResume => !loaded,
        PlayStep::NoSink => true,
    }
}

/// Returns whether a call to pause has a sink to pause: one exists and is not paused.
pub fn pause_needed(sink: Option<SinkStatus>) -> (r: bool)
    ensures
        r == (sink matches Some(s) && !s.paused),
{
    match sink {
        Some(s) => !s.paused,
        None => false,
    }
}

/// How far a seek got in rebuilding the sink.
#[derive(Debug, Clone, Copy, PartialEq, Eq, Structural)]
pub enum SeekOutcome {
    /// No new sink could be created.
    SinkUnavailable,
    /// A new sink exists but there is no audio file to load into it.
    NoSource,
    /// A new sink exists but the audio file could not be opened or decoded.
    SourceFailed,
    /// The audio was loaded into the new sink from the target position.
    Loaded,
}

/// Whether the engine is paused after a seek that came to `outcome`, when audio was
/// playing before it or not.
pub open spec fn engine_paused_after_seek_spec(engine_paused: bool, was_playing: bool, outcome: SeekOutcome) -> bool {
    match outcome {
        SeekOutcome::SinkUnavailable => true,
        SeekOutcome::NoSource => true,
        SeekOutcome::SourceFailed => engine_paused,
        SeekOutcome::Loaded => !was_playing,
    }
}

/// Returns whether the engine is paused after a seek that came to `outcome`.
pub fn engine_paused_after_seek(engine_paused: bool, was_playing: bool, outcome: SeekOutcome) -> (r: bool)
    ensures
        r == engine_paused_after_seek_spec(engine_paused, was_playing, outcome),
        outcome == SeekOutcome::SinkUnavailable ==> r,
        outcome == SeekOutcome::NoSource ==> r,
        outcome == SeekOutcome::SourceFailed ==> r == engine_paused,
        outcome == SeekOutcome::Loaded ==> r == !was_playing,
{
    match outcome {
        SeekOutcome::SinkUnavailable => true,
        SeekOutcome::NoSource => true,
        SeekOutcome::SourceFailed => engine_paused,
        SeekOutcome::Loaded => !was_playing,
    }
}

/// Returns whether the new sink is set playing after a seek that came to `outcome`:
/// only when the audio was loaded and was playing before.
pub fn resume_after_seek(was_playing: bool, outcome: SeekOutcome) -> (r: bool)
    ensures
        r == (outcome == SeekOutcome::Loaded && was_playing),
{
    match outcome {
        SeekOutcome::Loaded => was_playing,
        _ => false,
    }
}

/// Audio plays only when everything lets it: a paused engine, a missing sink, an
/// empty sink or a paused sink each mean it is not playing; an unpaused engine with a
/// sink that holds audio and is not paused means it is.
pub proof fn playing_needs_engine_and_sink(engine_paused: bool, sink: Option<SinkStatus>)
    ensures
        is_playing_spec(true, sink) == false,
        is_playing_spec(engine_paused, None) == false,
        forall|paused: bool| !#[trigger] is_playing_spec(engine_paused, Some(SinkStatus { empty: true, paused })),
        forall|empty: bool| !#[trigger] is_playing_spec(engine_paused, Some(SinkStatus { empty, paused: true })),
        is_playing_spec(false, Some(SinkStatus { empty: false, paused: false })),
{
}

/// A seek that cannot create a sink, or finds no audio source, always leaves the engine
/// paused; one whose source fails to load leaves it as it was; and after any seek the
/// engine runs only when the new sink was set playing or, on a failed source, it was
/// running already.
pub proof fn seek_pauses_without_audio(engine_paused: bool, was_playing: bool, outcome: SeekOutcome)
    ensures
        engine_paused_after_seek_spec(engine_paused, was_playing, SeekOutcome::SinkUnavailable),
        engine_paused_after_seek_spec(engine_paused, was_playing, SeekOutcome::NoSource),
        engine_paused_after_seek_spec(engine_paused, was_playing, SeekOutcome::SourceFailed) == engine_paused,
        !engine_paused_after_seek_spec(engine_paused, was_playing, outcome) ==> ((outcome == SeekOutcome::Loaded
            && was_playing) || (outcome == SeekOutcome::SourceFailed && !engine_paused)),
        (outcome == SeekOutcome::Loaded && was_playing) ==> !engine_paused_after_seek_spec(
            engine_paused,
            was_playing,
            outcome,
        ),
{
}

/// A seek that loads the audio keeps playback as it was: audio that was playing
/// plays on from the new position, and audio that was not stays paused.
pub proof fn seek_keeps_playback_state(engine_paused: bool, was_playing: bool)
    ensures
        !engine_paused_after_seek_spec(engine_paused, was_playing, SeekOutcome::Loaded) <==> was_playing,
{
}

} // verus!
