//! What surrounds the loading of the resource that the worker owns: where it
//! is looked for, and what is reported when it cannot be had.

use vstd::prelude::*;
use vstd::string::StringExecFns;

verus! {

/// Where the model file lies below the directory it is looked for in.
pub const MODEL_FILE: &'static str = "/models/open_llama_3b-q4_0-ggjt.bin";

/// What the load operation is given.
#[derive(Clone, Debug, PartialEq, Eq)]
pub struct LoadConfig {
    /// The file that holds the model.
    pub model_path: String,
    /// Whether an accelerator is to be used.
    pub use_accelerator: bool,
}

/// The resource could not be had.
#[derive(Clone, Debug, PartialEq, Eq)]
pub enum LoadError {
    /// The directory to look in could not be read.
    Directory {
        /// What the system said went wrong.
        cause: String,
    },
    /// The model file could not be loaded.
    Model {
        /// The file that was tried.
        path: String,
        /// What the loader said went wrong.
        cause: String,
    },
}

/// The mathematical value of a [`LoadError`].
pub enum LoadErrorView {
    Directory { cause: Seq<char> },
    Model { path: Seq<char>, cause: Seq<char> },
}

impl View for LoadError {
    type V = LoadErrorView;

    open spec fn view(&self) -> LoadErrorView {
        match self {
            LoadError::Directory { cause } => LoadErrorView::Directory { cause: cause@ },
            LoadError::Model { path, cause } => LoadErrorView::Model { path: path@, cause: cause@ },
        }
    }
}

/// The message of `error`: what could not be had, where, and why.
pub open spec fn load_message(error: LoadErrorView) -> Seq<char> {
    match error {
        LoadErrorView::Directory { cause } => "Failed to read the current directory: "@ + cause,
        LoadErrorView::Model { path, cause } => "Failed to load model from "@ + path + ": "@
            + cause,
    }
}

impl LoadConfig {
    /// The configuration for the model file below `directory`, with the
    /// accelerator switched on.
    pub fn for_directory(directory: &str) -> (config: LoadConfig)
        ensures
            config.model_path@ == directory@ + MODEL_FILE@,
            config.use_accelerator,
    {
        let model_path = String::from_str(directory).concat(MODEL_FILE);
        LoadConfig { model_path, use_accelerator: true }
    }

    /// The configuration for the outcome of reading the current directory:
    /// that of [`for_directory`](Self::for_directory) where it was read, and
    /// an error that names the cause where it was not.
    pub fn locate(directory: Result<String, String>) -> (found: Result<LoadConfig, LoadError>)
        ensures
            match directory {
                Ok(name) => found matches Ok(config) && config.model_path@ == name@ + MODEL_FILE@
                    && config.use_accelerator,
                Err(cause) => found matches Err(error) && error@ == (LoadErrorView::Directory {
                    cause: cause@,
                }),
            },
    {
        match directory {
            Ok(name) => Ok(LoadConfig::for_directory(name.as_str())),
            Err(cause) => Err(LoadError::Directory { cause }),
        }
    }

    /// The outcome of loading the model that this configuration names: the
    /// resource where the load succeeded, and an error that names the file
    /// and the loader's cause where it failed.
    pub fn loaded<R>(&self, outcome: Result<R, String>) -> (resource: Result<R, LoadError>)
        ensures
            match outcome {
                Ok(model) => resource == Ok::<R, LoadError>(model),
                Err(cause) => resource matches Err(error) && error@ == (LoadErrorView::Model {
                    path: self.model_path@,
                    cause: cause@,
                }),
            },
    {
        match outcome {
            Ok(model) => Ok(model),
            Err(cause) => Err(LoadError::Model { path: self.model_path.clone(), cause }),
        }
    }
}

impl LoadError {
    /// A message that names what was tried and the cause.
    pub fn message(&self) -> (text: String)
        ensures
            text@ == load_message(self@),
    {
        match self {
            LoadError::Directory { cause } => {
                let mut text = String::from_str("Failed to read the current directory: ");
                text.append(cause.as_str());
                text
            },
            LoadError::Model { path, cause } => {
                let mut text = String::from_str("Failed to load model from ");
                text.append(path.as_str());
                text.append(": ");
                text.append(cause.as_str());
                text
            },
        }
    }
}

} // verus!
