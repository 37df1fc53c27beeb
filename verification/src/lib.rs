pub mod geocode;
pub mod group;
pub mod normalize;
pub mod person;
pub mod score;
pub mod text;
