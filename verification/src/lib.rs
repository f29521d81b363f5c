pub mod anthropic;
pub mod anthropic_laws;
pub mod client;
pub mod decimal;
pub mod json;
pub mod models;
pub mod prompt;
pub mod rate_limit_laws;
pub mod rate_limits;
pub mod request_laws;
pub mod shell_laws;
pub mod shell_output;
pub mod sse;
pub mod sse_laws;
pub mod stream_laws;
pub mod text;
pub mod text_laws;
pub mod tools;
