//! The verified core of a conversational memory service: what it keeps of a
//! chat model's replies, which graph statements store extracted facts,
//! which graph queries may run, which session a message goes to, and when a
//! session is archived.

pub mod ids;
pub mod llm;
pub mod neo4j;
pub mod redis;
pub mod runners;
pub mod session;
pub mod text;
pub mod types;
