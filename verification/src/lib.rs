//! Interactive graph-canvas engine: a directed graph of nodes with typed
//! ports, edited on a pannable, zoomable canvas.
//!
//! All geometry is carried in fixed-point integers: coordinates in
//! thousandths of a pixel and zoom factors in thousandths, so that the
//! screen-space/graph-space mapping, the node layout, the connection curves
//! and the gesture decisions are exact integer arithmetic with proved
//! bounds. The host application converts between its floating-point
//! surface and these units at the boundary.

pub mod camera;
pub mod curve;
pub mod format;
pub mod geom;
pub mod gesture;
pub mod layout;
pub mod model;
pub mod style;
pub mod viewport;
