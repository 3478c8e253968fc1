//! Plain data of the game-generation tooling: providers, asset kinds,
//! training progress and validation findings, preview settings, prompt
//! templates and training specializations.

use vstd::prelude::*;
use std::collections::HashMap;
use std::time::SystemTime;
use crate::text::owned;

verus! {

broadcast use vstd::string::group_string_axioms;

/// `std::time::SystemTime`, carried through as an opaque value.
#[verifier::external_type_specification]
#[verifier::external_body]
pub struct ExSystemTime(SystemTime);

/// `SystemTime::clone`: `SystemTime` is `Copy`, so a clone is the same
/// instant.
pub assume_specification[ <SystemTime as Clone>::clone ](t: &SystemTime) -> (r: SystemTime)
    ensures
        r == *t,
;

/// Services that generate text.
#[derive(Debug, Clone)]
pub enum AiProvider {
    OpenAI,
    Anthropic,
    Ollama,
    Local,
}

/// Kinds of generated assets.
#[derive(Debug, Clone)]
pub enum AssetType {
    /// A 2D sprite or texture.
    Sprite,
    /// A background image.
    Background,
    /// A UI element.
    UiElement,
    /// A sound effect.
    SoundEffect,
    /// A music track.
    Music,
    /// A 3D model.
    Model3D,
}

/// Stages of training one model.
#[derive(Debug, Clone, PartialEq)]
pub enum TrainingStage {
    NotStarted,
    DatasetValidation,
    DatasetPreparation,
    ModelCreation,
    BatchProcessing,
    ModelFinalization,
    Completed,
    Failed(String),
}

/// How far the training of one model has come.
#[derive(Debug, Clone)]
pub struct ModelProgress {
    pub stage: TrainingStage,
    pub current_batch: usize,
    pub total_batches: usize,
    pub examples_processed: usize,
    pub total_examples: usize,
    pub start_time: SystemTime,
    pub estimated_completion: Option<SystemTime>,
    pub errors: Vec<String>,
}

/// Kinds of problems in a training example.
#[derive(Debug, Clone)]
pub enum ValidationErrorType {
    InvalidJson,
    MissingField,
    InvalidFieldType,
    EmptyContent,
    TooLarge,
    InvalidStructure,
}

/// A problem found in one training example.
#[derive(Debug, Clone)]
pub struct ValidationError {
    pub example_index: usize,
    pub error_type: ValidationErrorType,
    pub message: String,
}

/// Platforms a generated game is tuned for.
#[derive(Debug, Clone)]
pub enum TargetPlatform {
    Desktop,
    Web,
    Mobile,
    Universal,
}

/// State of the live preview.
#[derive(Debug, Clone)]
pub enum PreviewStatus {
    /// No scene loaded.
    Idle,
    /// A scene is loading.
    Loading,
    /// A scene is running.
    Active,
    /// Loading failed.
    Error(String),
}

/// Settings of the live preview.
#[derive(Debug, Clone, Copy)]
pub struct PreviewConfig {
    pub auto_preview: bool,
    pub debug_overlay: bool,
    pub target_fps: u32,
    pub max_entities: usize,
    pub window_size: (u32, u32),
}

impl Default for PreviewConfig {
    /// Previews start on their own with the debug overlay, at 60 frames a
    /// second, up to 1000 entities, in a 1280 by 720 window.
    fn default() -> (r: Self)
        ensures
            r.auto_preview,
            r.debug_overlay,
            r.target_fps == 60,
            r.max_entities == 1000,
            r.window_size == (1280u32, 720u32),
    {
        PreviewConfig {
            auto_preview: true,
            debug_overlay: true,
            target_fps: 60,
            max_entities: 1000,
            window_size: (1280, 720),
        }
    }
}

/// How elaborate a generated game is.
#[derive(Debug, Clone)]
pub enum ComplexityLevel {
    Simple,
    Medium,
    Complex,
}

/// A named prompt template and its variables.
#[derive(Debug, Clone)]
pub struct PromptTemplate {
    pub name: String,
    pub template: String,
    pub variables: HashMap<String, String>,
}

/// What a specialized model is trained for.
#[derive(Debug, Clone)]
pub enum ModelSpecialty {
    /// Game design and mechanics.
    Design,
    /// Scene descriptions.
    Scene,
    /// Asset specifications.
    Assets,
    /// Game logic and scripts.
    Scripts,
    /// Performance tuning.
    Performance,
    /// Publishing and deployment.
    Deployment,
}

/// Difficulty of a training example.
#[derive(Debug, Clone)]
pub enum DifficultyLevel {
    Beginner,
    Intermediate,
    Advanced,
    Expert,
}

/// How training data is multiplied.
#[derive(Debug, Clone)]
pub struct DataAugmentation {
    pub variation_multiplier: usize,
    pub add_noise: bool,
    pub synthetic_examples: bool,
}

impl Default for DataAugmentation {
    /// Three variations per example, no noise, synthetic examples on.
    fn default() -> (r: Self)
        ensures
            r.variation_multiplier == 3,
            !r.add_noise,
            r.synthetic_examples,
    {
        DataAugmentation { variation_multiplier: 3, add_noise: false, synthetic_examples: true }
    }
}

/// What a model's training concentrates on.
#[derive(Debug, Clone)]
pub struct ModelSpecialization {
    pub target_genres: Vec<String>,
    pub preferred_components: Vec<String>,
    pub augmentation: DataAugmentation,
}

/// The views of a list of strings.
pub open spec fn string_list(v: Seq<String>) -> Seq<Seq<char>> {
    v.map_values(|s: String| s@)
}

impl Default for ModelSpecialization {
    /// Five genres, five component kinds, default augmentation.
    fn default() -> (r: Self)
        ensures
            string_list(r.target_genres@) == seq![
                "platformer"@,
                "shooter"@,
                "puzzle"@,
                "rpg"@,
                "racing"@,
            ],
            string_list(r.preferred_components@) == seq![
                "Transform"@,
                "Sprite"@,
                "Player"@,
                "Collider"@,
                "RigidBody"@,
            ],
            r.augmentation.variation_multiplier == 3,
            !r.augmentation.add_noise,
            r.augmentation.synthetic_examples,
    {
        let target_genres = vec![
            owned("platformer"),
            owned("shooter"),
            owned("puzzle"),
            owned("rpg"),
            owned("racing"),
        ];
        let preferred_components = vec![
            owned("Transform"),
            owned("Sprite"),
            owned("Player"),
            owned("Collider"),
            owned("RigidBody"),
        ];
        let r = ModelSpecialization {
            target_genres,
            preferred_components,
            augmentation: DataAugmentation::default(),
        };
        assert(string_list(r.target_genres@) =~= seq![
            "platformer"@,
            "shooter"@,
            "puzzle"@,
            "rpg"@,
            "racing"@,
        ]);
        assert(string_list(r.preferred_components@) =~= seq![
            "Transform"@,
            "Sprite"@,
            "Player"@,
            "Collider"@,
            "RigidBody"@,
        ]);
        r
    }
}

} // verus!
