//! Session scheduling and streaming protocol for sharing one text-generation
//! engine among many remote clients.
//!
//! The engine, the transport and the clock stay outside this crate: the
//! library decides, for each connection, what to do next (feed a word, ask
//! for the next token, send a message, close) from what just happened, and a
//! round-robin scheduler decides which connection's engine call runs next.

pub mod scheduler;
pub mod template;
pub mod turn;
pub mod words;

pub use template::{has_double_brace, rendered};
pub use turn::{render_units, Action, ActionView, Event, EventView, FeedSignal, Phase, Session, SessionView};
pub use words::{feed_units, is_space, words};
pub use scheduler::{Scheduler, SchedulerView};
