pub mod collect;
pub mod content;
pub mod json;
pub mod rank;
pub mod response;
pub mod score;
pub mod scorer;
