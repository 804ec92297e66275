//! Authentication and session-management core.
//!
//! The crate manages user credentials (email and password hash), issues and
//! validates ephemeral session keys, and classifies backend failures into a
//! stable domain error taxonomy. The auth service orchestrates a durable user
//! store and an ephemeral session cache; passwords are hashed and verified
//! through the `argon2` crate, and session keys are drawn from a random
//! source.


pub mod auth;
pub mod crypto;
pub mod error;
pub mod session;
pub mod store;
pub mod user;

pub use auth::Login;
pub use auth::Session;
pub use auth::Signup;
pub use auth::Users;
pub use crypto::rand_string;
pub use error::AuthError;
pub use error::StoreError;
pub use error::auth_error_of_store;
pub use error::classify_backend_code;
pub use session::SessionCache;
pub use store::UserStore;
pub use user::User;
pub use user::UserV;
