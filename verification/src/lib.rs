//! Keeps background music paused while a meeting application is running.
//!
//! The library holds the coordination logic: which process names count as a
//! meeting, how a detection cycle turns per-process presence answers into a
//! snapshot, and the pause/resume state machine with its rate limiter. The
//! surrounding process supplies the observations (process presence, audio
//! playback) and carries out the playback commands the state machine asks for.

pub mod config;
pub mod meeting_detector;
pub mod monitoring_service;
pub mod music_controller;
