pub mod buzz;
pub mod charter;
pub mod errands;
pub mod firing;
pub mod host;
pub mod huddle;
pub mod json;
pub mod lease;
pub mod listen;
pub mod paths;
pub mod pickup;
pub mod presence;
pub mod proposal;
pub mod record;
pub mod run;
pub mod service;
pub mod text;
pub mod time;
pub mod watches;
