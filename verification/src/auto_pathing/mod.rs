//! Editing of autonomous routines: the waypoint store and the rule that its
//! routines obey, the pointer interaction, the commands of the configuration
//! panel, the markers, and the trajectories derived from the routines.

pub mod config_panel;
pub mod continuity;
pub mod cursor;
pub mod markers;
pub mod trajectory;
pub mod waypoints;
