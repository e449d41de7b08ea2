//! Configuration modules of a cloud instance initialiser.

pub mod b64;
pub mod case;
pub mod cc;
pub mod dumps;
pub mod json;
pub mod machine;
pub mod number;
pub mod order;
pub mod paths;
pub mod pattern;
pub mod rootdev;
pub mod shlex;
pub mod show;
pub mod space;
pub mod text;
pub mod value;
pub mod walk;
