//! Feeds records from a file or from an SQS queue to a pool of engine workers, and settles
//! each of them once: added, rejected, or left to be delivered again.
pub mod arn;
pub mod bookkeeping;
pub mod dead_letter;
pub mod deletes;
pub mod delivery;
pub mod driver;
pub mod in_flight;
pub mod loader;
pub mod main_loop;
pub mod poll;
pub mod poll_loop;
pub mod reader;
pub mod record;
pub mod redrive;
pub mod reject;
pub mod report;
pub mod resume;
pub mod run;
pub mod settle;
pub mod side_file;
pub mod text;
pub mod visibility;
