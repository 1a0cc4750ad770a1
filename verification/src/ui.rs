//! The handlers of the mock applications that the macro's user-interface
//! checks feed it.
//!
//! Each module holds the handlers of one mock application and says what is
//! malformed in that application's declarations; the checks that reject
//! such declarations belong to the application parser.
pub mod idle_output;
pub mod init_double_local;
pub mod init_input;
pub mod init_output;
pub mod interrupt_double;
pub mod local_malformed_2;
