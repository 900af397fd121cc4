//! Verified core of the Shadow phone shell: app registry, shell navigation model,
//! compositor control protocol, touch decoding, frame buffers and the small
//! runtime services that back the demo apps.

pub mod adapter;
pub mod app;
pub mod audio;
pub mod audio_helper;
pub mod boot;
pub mod canvas;
pub mod click;
pub mod color;
pub mod compositor;
pub mod frame;
pub mod guest_counter;
pub mod control;
pub mod counter;
pub mod display;
pub mod nostr;
pub mod relay;
pub mod runtime;
pub mod scene;
pub mod seqs;
pub mod shell;
pub mod software;
pub mod status;
pub mod text;
pub mod text_wrap;
pub mod touch;
