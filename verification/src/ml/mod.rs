//! The identification models' directories and the content kinds they tell
//! apart; the models' numeric work lives with the application.
use vstd::prelude::*;
use crate::error::DiskRipperError;
use crate::text::owned;

pub mod audio_fingerprint;
pub mod organizer;

verus! {

/// What a disc's content is.
#[derive(Debug, Clone, Copy, PartialEq, Eq, Structural)]
pub enum ContentType {
    Music,
    Movie,
    TvShow,
    Software,
    Game,
    Data,
    Unknown,
}

/// Which model identified the content.
#[derive(Debug, Clone, Copy, PartialEq, Eq, Structural)]
pub enum IdentificationSource {
    AudioFingerprint,
    MusicBrainz,
    VideoFingerprint,
    Tmdb,
    ContentClassifier,
    Hybrid,
    UserProvided,
}

/// The name of a content kind, as the organizer records it.
pub open spec fn content_type_text(t: ContentType) -> Seq<char> {
    match t {
        ContentType::Music => "Music"@,
        ContentType::Movie => "Movie"@,
        ContentType::TvShow => "TvShow"@,
        ContentType::Software => "Software"@,
        ContentType::Game => "Game"@,
        ContentType::Data => "Data"@,
        ContentType::Unknown => "Unknown"@,
    }
}

impl ContentType {
    /// The kind's name.
    pub fn name(&self) -> (r: String)
        ensures
            r@ == content_type_text(*self),
    {
        match self {
            ContentType::Music => owned("Music"),
            ContentType::Movie => owned("Movie"),
            ContentType::TvShow => owned("TvShow"),
            ContentType::Software => owned("Software"),
            ContentType::Game => owned("Game"),
            ContentType::Data => owned("Data"),
            ContentType::Unknown => owned("Unknown"),
        }
    }
}

/// Classifies content by genre and kind.
pub struct ContentClassifier {
    pub model_dir: String,
}

/// Combines the models' signals.
pub struct HybridIdentifier {
    pub model_dir: String,
}

/// Keeps the saved versions of the models.
pub struct ModelVersioning {
    pub model_dir: String,
}

/// Learns from the user's corrections.
pub struct SelfLearning {
    pub model_dir: String,
    pub feedback_dir: String,
}

/// Fingerprints video.
pub struct VideoFingerprinter {
    pub model_dir: String,
}

/// Keeps the training samples.
pub struct DataManager {
    pub data_dir: String,
}

/// Extracts features from audio samples.
pub struct AudioFeatureExtractor;

/// Extracts features from video frames.
pub struct VideoFeatureExtractor;

impl ContentClassifier {
    /// The classifier whose model lives in `model_dir`.
    pub fn new(model_dir: &str) -> (r: Result<Self, DiskRipperError>)
        ensures
            r matches Ok(c) && c.model_dir@ == model_dir@,
    {
        Ok(ContentClassifier { model_dir: owned(model_dir) })
    }
}

impl HybridIdentifier {
    /// The identifier whose model lives in `model_dir`.
    pub fn new(model_dir: &str) -> (r: Result<Self, DiskRipperError>)
        ensures
            r matches Ok(c) && c.model_dir@ == model_dir@,
    {
        Ok(HybridIdentifier { model_dir: owned(model_dir) })
    }
}

impl ModelVersioning {
    /// The versions kept in `model_dir`.
    pub fn new(model_dir: &str) -> (r: Result<Self, DiskRipperError>)
        ensures
            r matches Ok(c) && c.model_dir@ == model_dir@,
    {
        Ok(ModelVersioning { model_dir: owned(model_dir) })
    }
}

impl SelfLearning {
    /// Learning for the models in `model_dir` from the feedback in
    /// `feedback_dir`.
    pub fn new(model_dir: &str, feedback_dir: &str) -> (r: Result<Self, DiskRipperError>)
        ensures
            r matches Ok(c) && c.model_dir@ == model_dir@ && c.feedback_dir@ == feedback_dir@,
    {
        Ok(SelfLearning { model_dir: owned(model_dir), feedback_dir: owned(feedback_dir) })
    }
}

impl VideoFingerprinter {
    /// The fingerprinter whose model lives in `model_dir`.
    pub fn new(model_dir: &str) -> (r: Result<Self, DiskRipperError>)
        ensures
            r matches Ok(c) && c.model_dir@ == model_dir@,
    {
        Ok(VideoFingerprinter { model_dir: owned(model_dir) })
    }
}

impl DataManager {
    /// The samples kept in `data_dir` (which the caller has created).
    pub fn with_dir(data_dir: &str) -> (r: Self)
        ensures
            r.data_dir@ == data_dir@,
    {
        DataManager { data_dir: owned(data_dir) }
    }
}

} // verus!
