//! The reading bridge of bookokrat: what an agent that asks for the page or the
//! chapter on screen is told, and over which lines of text.

pub mod mcp;
