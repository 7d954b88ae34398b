pub mod boid_controller;
pub mod motion_controller;
pub mod pid_controller;
