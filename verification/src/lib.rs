//! A challenge-response authentication library in the SASL framework:
//! clients and servers exchange opaque byte buffers until one side
//! completes or aborts the exchange. The mechanisms provided here are
//! ANONYMOUS, EXTERNAL, LOGIN, PLAIN and OAUTHBEARER.

pub mod anonymous;
pub mod external;
pub mod login;
pub mod oauthbearer;
pub mod plain;
pub mod sasl;
pub mod text;
