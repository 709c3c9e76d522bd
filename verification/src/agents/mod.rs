//! Built-in agent implementations.

pub mod basic;
pub mod parallel;
pub mod retry;
pub mod router;
pub mod state;
pub mod summarizer;
pub mod validator;

pub use basic::{BasicAgent, EchoAgent, FixedRouteAgent, FlakeyAgent, StaticAgent};
pub use parallel::{AgentList, Combine, CombineStrategy, NewlineCombine, ParallelAgent};
pub use retry::{DefaultRetryCheck, RetryAgent, RetryCheck, RetryStrategy};
pub use router::{RouteRule, RouterAgent};
pub use state::{AgentState, DataList, NoProcessor, StateProcessor, StatefulAgent, StrList};
pub use summarizer::{SummarizerAgent, SummarizerConfig, SummaryStyle};
pub use validator::{RuleCheck, ValidationRule, ValidatorAgent};
