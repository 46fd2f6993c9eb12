//! What the library knows of an embedding backend: how one is configured,
//! and how it can fail.

use vstd::prelude::*;

verus! {

/// How the embedding model is loaded and run.
#[derive(Clone, Debug)]
pub struct EmbeddingModelConfig {
    /// Where the model file lies.
    pub model_path: String,
    /// How many layers run on the GPU; the backend's default where `None`.
    pub gpu_layers: Option<u32>,
    /// How many threads embed one text.
    pub threads: Option<u32>,
    /// How many threads embed a batch; as many as `threads` where `None`.
    pub threads_batch: Option<u32>,
}

/// The mathematical value of an [`EmbeddingModelConfig`].
pub struct EmbeddingModelConfigModel {
    pub model_path: Seq<char>,
    pub gpu_layers: Option<u32>,
    pub threads: Option<u32>,
    pub threads_batch: Option<u32>,
}

impl View for EmbeddingModelConfig {
    type V = EmbeddingModelConfigModel;

    open spec fn view(&self) -> EmbeddingModelConfigModel {
        EmbeddingModelConfigModel {
            model_path: self.model_path@,
            gpu_layers: self.gpu_layers,
            threads: self.threads,
            threads_batch: self.threads_batch,
        }
    }
}

/// The number of threads that embed one text where the configuration names
/// none: one less than the machine has physical cores, at least one.
pub open spec fn default_threads(physical_cores: usize) -> u32 {
    if physical_cores <= 2 {
        1
    } else {
        (physical_cores - 1) as u32
    }
}

impl EmbeddingModelConfig {
    /// The configuration for a model file, with every other setting left to
    /// its default.
    pub fn new(model_path: &str) -> (out: Self)
        ensures
            out@ == (EmbeddingModelConfigModel {
                model_path: model_path@,
                gpu_layers: None,
                threads: None,
                threads_batch: None,
            }),
    {
        EmbeddingModelConfig {
            model_path: model_path.to_owned(),
            gpu_layers: None,
            threads: None,
            threads_batch: None,
        }
    }

    /// The numbers of threads for one text and for a batch on a machine with
    /// `physical_cores` cores.
    pub fn thread_counts(&self, physical_cores: usize) -> (out: (u32, u32))
        ensures
            out.0 == match self.threads {
                Some(n) => n,
                None => default_threads(physical_cores),
            },
            out.1 == match self.threads_batch {
                Some(n) => n,
                None => out.0,
            },
    {
        let threads = match self.threads {
            Some(n) => n,
            None => if physical_cores <= 2 {
                1
            } else {
                (physical_cores - 1) as u32
            },
        };
        let threads_batch = match self.threads_batch {
            Some(n) => n,
            None => threads,
        };
        (threads, threads_batch)
    }
}

/// How an embedding backend can fail.
#[derive(Clone, Copy, Debug, PartialEq, Eq, Structural)]
pub enum EmbeddingError {
    /// The backend returned fewer vectors than it was asked for.
    MissingOutput,
    /// No backend is there.
    Unavailable,
}

impl EmbeddingError {
    /// The message of the error.
    pub fn message(&self) -> (out: String)
        ensures
            out@ == match self {
                EmbeddingError::MissingOutput => "embedding output missing"@,
                EmbeddingError::Unavailable => "embedding runtime not available"@,
            },
    {
        match self {
            EmbeddingError::MissingOutput => "embedding output missing".to_owned(),
            EmbeddingError::Unavailable => "embedding runtime not available".to_owned(),
        }
    }
}

} // verus!
