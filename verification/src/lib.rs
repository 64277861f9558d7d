//! The runtime environment subsystem of an ECMAScript interpreter: the scope
//! records, the environment stack, and the binding locators through which the
//! interpreter resolves identifier references to storage at execution time.

pub mod compile;
pub mod context;
pub mod declarative;
pub mod locator;
pub mod object;
pub mod private_env;
pub mod stack;
pub mod value;
