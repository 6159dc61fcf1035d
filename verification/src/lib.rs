//! A local time-based one-time-password authenticator's core: named
//! BASE32 secrets live in a credential store, and on request the library
//! produces the currently valid six-digit code for one or all names,
//! looking one time window ahead when the current code is about to
//! expire. The store's mutation contract, the look-ahead policy and the
//! request routing are verified; the HMAC-based code computation and the
//! BASE32 decoding are outside primitives, specified at the boundary.

pub mod dispatch;
pub mod errors;
pub mod otp;
pub mod store;
