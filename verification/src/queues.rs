//! The work pipelines: the shared record types and scheduler, the chat
//! pipeline and the OCR pipeline.

pub mod work;

pub mod ocr;
pub mod chat;
pub mod records;
