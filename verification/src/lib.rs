pub mod builds;
