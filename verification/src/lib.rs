//! Verified request-handling logic of an X11 server that renders into a web
//! front end: keyboard and cursor tables, the grab state machine, GC value
//! handling and raster operations, and the GLX reply encoders.

pub mod composite;
pub mod cursor;
pub mod dbe;
pub mod dpms;
pub mod dri3;
pub mod drawing;
pub mod fonts;
pub mod glx;
pub mod grab;
pub mod hosts;
pub mod input;
pub mod keyboard;
pub mod keymap;
pub mod mapping;
pub mod pixmap;
pub mod pointer;
pub mod present;
pub mod properties;
pub mod region;
pub mod requests;
pub mod screen_saver;
pub mod state;
pub mod video;
pub mod wire;
