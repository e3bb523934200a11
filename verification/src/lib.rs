pub mod activations;
pub mod backend;
pub mod backends;
pub mod cast;
pub mod compositor;
pub mod observation;
pub mod recording;
pub mod scripting;
pub mod text;
pub mod types;
pub mod web;
