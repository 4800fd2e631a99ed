pub mod client;
pub mod ingress;
pub mod registry;
pub mod scheduler;
pub mod session;
pub mod sound;
pub mod url;
