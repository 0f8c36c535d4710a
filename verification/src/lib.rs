//! The decisions, data structures and bit-level codecs of an interactive duct
//! flow simulator.

pub mod accessor_meaning;
pub mod autotune;
pub mod binary32;
pub mod binary64;
pub mod boundary;
pub mod camera_input;
pub mod clock;
pub mod collision;
pub mod compare;
pub mod config;
pub mod conservation;
pub mod dock;
pub mod flags;
pub mod float_order;
pub mod format;
pub mod gizmo;
pub mod grid;
pub mod hud;
pub mod kernel;
pub mod keys;
pub mod lattice;
pub mod layers;
pub mod legend;
pub mod links;
pub mod minifloat;
pub mod openings;
pub mod overlays;
pub mod panels;
pub mod params;
pub mod platform;
pub mod pose;
pub mod precision;
pub mod reference;
pub mod shader_meaning;
pub mod shaders;
pub mod solver;
pub mod state;
pub mod text;
pub mod toast;
pub mod view;
pub mod volume;
