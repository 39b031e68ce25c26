//! A memory pipeline for a conversational assistant.
//!
//! Messages are buffered until a boundary of the conversation is reached ([`buffer`],
//! [`boundary`]). Then an episode, atomic facts, predictions and from time to time a profile of the
//! user are extracted ([`extractor`], [`merger`], [`store`]), step by step and whatever fails on the
//! way ([`turn`], [`pipeline`]). What is remembered comes back as a block of text before the next
//! question ([`formatter`]).
//!
//! Models, database and embeddings are asked by the caller: the library says what to ask and takes
//! the answers.

pub mod boundary;
pub mod buffer;
pub mod buffer_laws;
pub mod chat;
pub mod config;
pub mod course_laws;
pub mod extractor;
pub mod formatter;
pub mod formatter_laws;
pub mod merger;
pub mod merger_laws;
pub mod outside;
pub mod pipeline;
pub mod profile_types;
pub mod prompts;
pub mod question_laws;
pub mod score;
pub mod store;
pub mod text;
pub mod text_laws;
pub mod turn;
pub mod turn_laws;
pub mod view_laws;
