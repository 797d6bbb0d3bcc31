//! The decision core of a two-track meeting recorder.

pub mod aligner;
pub mod capture_error;
pub mod capture_health;
pub mod capture_session;
pub mod capture_stream;
pub mod device_diff;
pub mod device_select;
pub mod device_watch;
pub mod domain;
pub mod error;
pub mod frame;
pub mod frame_collector;
pub mod live_transcription;
pub mod normalize;
pub mod permissions;
pub mod pipeline;
pub mod pseudo_source;
pub mod rebinding;
pub mod retranscribe;
pub mod segmenter;
pub mod session_lifecycle;
pub mod silence_gate;
pub mod stt_provider_kind;
pub mod supervisor;
pub mod text;
pub mod timeline_adapter;
pub mod timestamp;
pub mod timestamp_mapper;
pub mod upload_worker;
pub mod xcorr;
