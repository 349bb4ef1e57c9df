//! Core of an editor for robot paths on a playing field: the waypoint store,
//! the rules that keep a path's ends oriented, the pointer interaction state
//! machine, and the mapping between field and screen coordinates.
//!
//! All geometry is exact integer arithmetic. Field coordinates are whole
//! micrometres, screen coordinates are whole pixels, and a heading is kept as
//! a direction vector rather than as an angle.

pub mod auto_pathing;
pub mod field;
pub mod heading;
pub mod layout;
pub mod math;
pub mod robot_connection;
