//! The models and options that requests name.
use vstd::prelude::*;

verus! {

/// How an input that is too long is cut.
#[derive(Debug, Clone, Copy, PartialEq, Eq)]
pub enum Truncate {
    /// Nothing is cut: an input that is too long is an error.
    Off,
    Start,
    End,
}

impl Truncate {
    /// The option's name on the wire.
    pub fn to_string(&self) -> (r: String)
        ensures
            r@ == match self {
                Truncate::Off => "NONE"@,
                Truncate::Start => "START"@,
                Truncate::End => "END"@,
            },
    {
        match self {
            Truncate::Off => "NONE".to_owned(),
            Truncate::Start => "START".to_owned(),
            Truncate::End => "END".to_owned(),
        }
    }
}

/// A model that turns text into embeddings.
#[derive(Debug, PartialEq)]
pub enum EmbedModel {
    EnglishV3,
    EnglishLightV3,
    MultilingualV3,
    MultilingualLightV3,
    EnglishV2,
    EnglishLightV2,
    MultilingualV2,
    /// A custom model, by its full id.
    Custom(String),
}

pub open spec fn embed_model_name(m: EmbedModel) -> Seq<char> {
    match m {
        EmbedModel::EnglishV3 => "embed-english-v3.0"@,
        EmbedModel::EnglishLightV3 => "embed-english-light-v3.0"@,
        EmbedModel::MultilingualV3 => "embed-multilingual-v3.0"@,
        EmbedModel::MultilingualLightV3 => "embed-multilingual-light-v3.0"@,
        EmbedModel::EnglishV2 => "embed-english-v2.0"@,
        EmbedModel::EnglishLightV2 => "embed-english-light-v2.0"@,
        EmbedModel::MultilingualV2 => "embed-multilingual-v2.0"@,
        EmbedModel::Custom(s) => s@,
    }
}

impl EmbedModel {
    /// The model's id on the wire.
    pub fn to_string(&self) -> (r: String)
        ensures
            r@ == embed_model_name(*self),
    {
        match self {
            EmbedModel::EnglishV3 => "embed-english-v3.0".to_owned(),
            EmbedModel::EnglishLightV3 => "embed-english-light-v3.0".to_owned(),
            EmbedModel::MultilingualV3 => "embed-multilingual-v3.0".to_owned(),
            EmbedModel::MultilingualLightV3 => "embed-multilingual-light-v3.0".to_owned(),
            EmbedModel::EnglishV2 => "embed-english-v2.0".to_owned(),
            EmbedModel::EnglishLightV2 => "embed-english-light-v2.0".to_owned(),
            EmbedModel::MultilingualV2 => "embed-multilingual-v2.0".to_owned(),
            EmbedModel::Custom(s) => s.clone(),
        }
    }
}

/// A model that generates text.
#[derive(Debug, PartialEq)]
pub enum GenerateModel {
    CommandRPlus,
    CommandR,
    Command,
    CommandNightly,
    CommandLight,
    CommandLightNightly,
    /// A custom model, by its full id.
    Custom(String),
}

pub open spec fn generate_model_name(m: GenerateModel) -> Seq<char> {
    match m {
        GenerateModel::CommandRPlus => "command-r-plus"@,
        GenerateModel::CommandR => "command-r"@,
        GenerateModel::Command => "command"@,
        GenerateModel::CommandNightly => "command-nightly"@,
        GenerateModel::CommandLight => "command-light"@,
        GenerateModel::CommandLightNightly => "command-light-nightly"@,
        GenerateModel::Custom(s) => s@,
    }
}

impl GenerateModel {
    /// The model's id on the wire.
    pub fn to_string(&self) -> (r: String)
        ensures
            r@ == generate_model_name(*self),
    {
        match self {
            GenerateModel::CommandRPlus => "command-r-plus".to_owned(),
            GenerateModel::CommandR => "command-r".to_owned(),
            GenerateModel::Command => "command".to_owned(),
            GenerateModel::CommandNightly => "command-nightly".to_owned(),
            GenerateModel::CommandLight => "command-light".to_owned(),
            GenerateModel::CommandLightNightly => "command-light-nightly".to_owned(),
            GenerateModel::Custom(s) => s.clone(),
        }
    }
}

impl Default for GenerateModel {
    fn default() -> (r: GenerateModel)
        ensures
            r == GenerateModel::CommandRPlus,
    {
        GenerateModel::CommandRPlus
    }
}

} // verus!
