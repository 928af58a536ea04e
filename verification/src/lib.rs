pub mod accurip;
pub mod audio;
pub mod audio_cd;
pub mod bytes;
pub mod crash_reporting;
pub mod disc;
pub mod drive;
pub mod drive_control;
pub mod error;
pub mod filesystem;
pub mod flac;
pub mod extract;
pub mod formats;
pub mod fuzz;
pub mod gpu;
pub mod i18n;
pub mod icons;
pub mod image;
pub mod job;
pub mod logging;
pub mod media;
pub mod metadata;
pub mod ml;
pub mod multisession;
pub mod numtext;
pub mod parallel;
pub mod plugins;
pub mod progress;
pub mod settings;
pub mod text;
pub mod types;
