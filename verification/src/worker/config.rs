use vstd::prelude::*;
use vstd::string::*;

use crate::text::str_eq;
use crate::worker::error::WorkerError;

verus! {

/// Which language-model provider the worker talks to.
#[derive(Debug, Clone, Copy, PartialEq, Eq, Structural)]
pub enum ProviderType {
    Grpc,
}

/// Which agent the worker runs.
#[derive(Debug, Clone, Copy, PartialEq, Eq, Structural)]
pub enum AgentType {
    Rag,
}

/// The settings of the worker.
#[derive(Debug)]
pub struct Config {
    pub grpc_addr: String,
    pub http_port: u16,
    pub log_json: bool,
    pub max_iterations: u32,
    pub request_timeout: u64,
    pub provider_type: ProviderType,
    pub agent_type: AgentType,
    pub redis_url: String,
    pub mongo_uri: String,
    pub mongo_db: String,
    pub history_max_messages: u32,
    pub summary_interval: u32,
    pub redis_ttl_secs: u64,
    pub qdrant_url: String,
    pub qdrant_collection_name: String,
    pub embedding_model_path: String,
    pub embedding_tokenizer_path: String,
    pub onnx_log_level: String,
}

/// The log levels of the ONNX runtime.
#[derive(Debug, Clone, Copy, PartialEq, Eq, Structural)]
pub enum OnnxLogLevel {
    Verbose,
    Info,
    Warning,
    Error,
    Fatal,
}

/// The log level that a name stands for, if it names one.
pub open spec fn onnx_level_named(name: Seq<char>) -> Option<OnnxLogLevel> {
    if name == "verbose"@ {
        Some(OnnxLogLevel::Verbose)
    } else if name == "info"@ {
        Some(OnnxLogLevel::Info)
    } else if name == "warning"@ {
        Some(OnnxLogLevel::Warning)
    } else if name == "error"@ {
        Some(OnnxLogLevel::Error)
    } else if name == "fatal"@ {
        Some(OnnxLogLevel::Fatal)
    } else {
        None
    }
}

/// The message of the error for a log level that names none.
pub open spec fn onnx_level_error() -> Seq<char> {
    "Failed to parse onnx log level. Available options: verbose, info, warning, error, fatal"@
}

/// The ONNX log level that the configuration names; any other name is an environment error.
pub fn get_onnx_log_level(config: &Config) -> (r: Result<OnnxLogLevel, WorkerError>)
    ensures
        match onnx_level_named(config.onnx_log_level@) {
            Some(l) => r == Ok::<OnnxLogLevel, WorkerError>(l),
            None => r matches Err(WorkerError::Environment(m)) && m@ == onnx_level_error(),
        },
{
    let name = config.onnx_log_level.as_str();
    if str_eq(name, "verbose") {
        Ok(OnnxLogLevel::Verbose)
    } else if str_eq(name, "info") {
        Ok(OnnxLogLevel::Info)
    } else if str_eq(name, "warning") {
        Ok(OnnxLogLevel::Warning)
    } else if str_eq(name, "error") {
        Ok(OnnxLogLevel::Error)
    } else if str_eq(name, "fatal") {
        Ok(OnnxLogLevel::Fatal)
    } else {
        Err(WorkerError::Environment(
            "Failed to parse onnx log level. Available options: verbose, info, warning, error, fatal".to_string(),
        ))
    }
}

} // verus!
