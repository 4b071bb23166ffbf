use vstd::prelude::*;

verus! {

/// Configuration of the transcription system. Thresholds are in
/// hundredths, durations in milliseconds.
#[derive(Debug)]
pub struct TranscriptionConfig {
    /// Enable the transcription engine.
    pub enabled: bool,
    /// Recogniser to use: `local_whisper`, `local_onnx` or `remote_nim`.
    pub backend: String,
    /// Path of the Whisper model file.
    pub whisper_model_path: Option<String>,
    /// Language hint for the recogniser, such as `en` or `de`; `None` to detect it.
    pub language: Option<String>,
    /// Path of the voice-activity model file.
    pub vad_model_path: Option<String>,
    /// Speech starts above this probability, in hundredths.
    pub vad_start_threshold_pct: u8,
    /// Speech ends below this probability, in hundredths.
    pub vad_end_threshold_pct: u8,
    /// Consecutive speech frames needed to start, at 32 ms a frame.
    pub vad_min_speech_frames: usize,
    /// Consecutive silence frames needed to end speech, at 32 ms a frame.
    pub vad_min_silence_frames: usize,
    /// Frames kept from before the detected start of speech.
    pub vad_pre_speech_pad_frames: usize,
    /// Longest utterance before it is ended by force, in milliseconds.
    pub max_speech_duration_ms: u64,
    /// Address of the remote recogniser.
    pub nim_endpoint: Option<String>,
    /// Path of the local ONNX recogniser model.
    pub onnx_model_path: Option<String>,
    /// Model name at the remote recogniser.
    pub nim_model: Option<String>,
    /// Interval between partial transcripts of an utterance, in milliseconds.
    pub streaming_partial_interval_ms: u64,
}

impl Default for TranscriptionConfig {
    fn default() -> (config: TranscriptionConfig)
        ensures
            !config.enabled,
            config.backend@ == "local_onnx"@,
            config.whisper_model_path is None,
            config.language is None,
            config.vad_model_path is None,
            config.vad_start_threshold_pct == 45,
            config.vad_end_threshold_pct == 30,
            config.vad_min_speech_frames == 3,
            config.vad_min_silence_frames == 20,
            config.vad_pre_speech_pad_frames == 15,
            config.max_speech_duration_ms == 30000,
            config.nim_endpoint is None,
            config.onnx_model_path is None,
            config.nim_model is None,
            config.streaming_partial_interval_ms == 500,
    {
        TranscriptionConfig {
            enabled: false,
            backend: "local_onnx".to_owned(),
            whisper_model_path: None,
            language: None,
            vad_model_path: None,
            vad_start_threshold_pct: 45,
            vad_end_threshold_pct: 30,
            vad_min_speech_frames: 3,
            vad_min_silence_frames: 20,
            vad_pre_speech_pad_frames: 15,
            max_speech_duration_ms: 30000,
            nim_endpoint: None,
            onnx_model_path: None,
            nim_model: None,
            streaming_partial_interval_ms: 500,
        }
    }
}

} // verus!
