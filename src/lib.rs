// Search results from music providers turned into download tasks for a player.
pub mod dispatch;
pub mod json;
pub mod laws;
pub mod provider;
