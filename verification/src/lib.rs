//! Driver logic for an AxiDraw-class pen plotter with an EiBotBoard controller.
//!
//! The crate holds the parts of the driver that are pure decisions: the text
//! protocol of the board (command validation and assembly, reply decoding,
//! the cached pen and motor state), the order in which a session talks to the
//! board, the order in which a drawing is put on paper, the cutting of a
//! planned motion into moves, and the bookkeeping of the planner's look-ahead
//! pass. Nothing here touches a serial port and nothing here computes with
//! real numbers: the caller transmits the lines this crate assembles, hands
//! back what the board answered, and does the kinematics.
//!
//! A command is made in two halves. A method of [`device::Device`] checks the
//! arguments and frames the command as a [`wire::Request`]; once the caller
//! has sent the request's line and read the reply,
//! [`device::Device::complete`] checks the reply, reads it, and brings the
//! cached state up to date.
//!
//! Beside the driver stand the few plain types that the text side of a
//! drawing shares with it: the alignment of a text and the errors of fonts
//! and text builders.

pub mod align;
pub mod commands;
pub mod decimal;
pub mod device;
pub mod discovery;
pub mod error;
pub mod executor;
pub mod font;
pub mod lookahead;
pub mod model;
pub mod orchestrator;
pub mod reply;
pub mod shutdown;
pub mod startup;
pub mod text;
pub mod wire;
