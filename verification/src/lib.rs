//! Validators for two Brazilian identifiers: the CPF taxpayer number and
//! vehicle license plates (legacy and Mercosul formats).
//!
//! Each check either succeeds or returns a [`ValidationError`] holding a
//! failure code and a ready-to-display message. A formatter renders an
//! 11-digit CPF in its canonical punctuated form, `XXX.XXX.XXX-XX`.

pub mod chars;
pub mod cpf;
pub mod decimal;
pub mod error;
pub mod plate;

pub use cpf::format_cpf;
pub use cpf::is_cpf_valid;
pub use cpf::normalize_cpf;
pub use cpf::validate_cpf;
pub use error::AppErrorCode;
pub use error::ValidationError;
pub use plate::is_plate_valid;
pub use plate::validate_plate;
