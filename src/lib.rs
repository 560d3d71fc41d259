//! A test harness that runs many test units concurrently, shares lazily
//! initialized fixtures between them, and reports their progress as a stream
//! of events.
//!
//! The library holds the decisions of such a harness: which tests run, when a
//! fixture is initialized, when a test may start, how the run statistics
//! move, and how events are rendered. Whoever hosts it performs the work that
//! those decisions call for.

pub mod args;
pub mod event;
pub mod fixture;
pub mod junit;
pub mod printer;

pub mod reporter;
pub mod runner;
pub mod scheduler;
pub mod status;
pub mod style;
pub mod text;
pub mod trial;

pub use crate::args::{Arguments, ColorSetting, FormatSetting};
pub use crate::event::TestEvent;
pub use crate::fixture::FixtureTable;
pub use crate::reporter::{ReporterOutput, TestReporter, TestReporterBuilder};
pub use crate::runner::{run, Conclusion, Host};
pub use crate::scheduler::{Action, Scheduler};
pub use crate::status::{Outcome, RunStats, TestList};
pub use crate::trial::{FixtureKey, MissingFixtures, TestInfo, Tester, Trial};
