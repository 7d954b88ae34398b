pub mod vector;
pub mod stl;
pub mod terrain;
pub mod controller;
pub mod agent;
pub mod environment;
pub mod swarm;
pub mod noise;
pub mod drag;
