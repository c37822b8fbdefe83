//! Session and token lifecycle: signed identity tokens, rotating refresh
//! tokens with family-based reuse detection, and request validation.
pub mod text;
pub mod fields;
pub mod codec;
pub mod refresh_token;
pub mod jwt;
pub mod rotation;
pub mod validator;
pub mod session;
pub mod env;
pub mod signup;
pub mod settings;
pub mod not_found;
pub mod requester;
