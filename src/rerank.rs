//! The rerank endpoint's request.
use vstd::prelude::*;

verus! {

/// A model that reorders documents by relevance to a query.
#[derive(Debug, PartialEq)]
pub enum RerankModel {
    EnglishV3,
    MultilingualV3,
    EnglishV2,
    MultilingualV2,
    /// A custom model, by its full id.
    Custom(String),
}

pub open spec fn rerank_model_name(m: RerankModel) -> Seq<char> {
    match m {
        RerankModel::EnglishV3 => "rerank-english-v3.0"@,
        RerankModel::MultilingualV3 => "rerank-multilingual-v3.0"@,
        RerankModel::EnglishV2 => "rerank-english-v2.0"@,
        RerankModel::MultilingualV2 => "rerank-multilingual-v2.0"@,
        RerankModel::Custom(s) => s@,
    }
}

impl RerankModel {
    /// The model's id on the wire.
    pub fn to_string(&self) -> (r: String)
        ensures
            r@ == rerank_model_name(*self),
    {
        match self {
            RerankModel::EnglishV3 => "rerank-english-v3.0".to_owned(),
            RerankModel::MultilingualV3 => "rerank-multilingual-v3.0".to_owned(),
            RerankModel::EnglishV2 => "rerank-english-v2.0".to_owned(),
            RerankModel::MultilingualV2 => "rerank-multilingual-v2.0".to_owned(),
            RerankModel::Custom(s) => s.clone(),
        }
    }
}

impl Default for RerankModel {
    fn default() -> (r: RerankModel)
        ensures
            r == RerankModel::EnglishV2,
    {
        RerankModel::EnglishV2
    }
}

/// Documents to reorder by their relevance to a query.
#[derive(Debug)]
pub struct RerankRequest<'input> {
    /// The search query.
    pub query: &'input str,
    /// The documents to reorder.
    pub documents: &'input [String],
    /// The model to use.
    pub model: RerankModel,
    /// How many results to return; all of them when absent.
    pub top_n: Option<u64>,
    /// The most chunks to cut each document into.
    pub max_chunks_per_doc: Option<u64>,
}

} // verus!
