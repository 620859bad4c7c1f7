pub use crate::collections::{LimitedQueue, LimitedStack};
