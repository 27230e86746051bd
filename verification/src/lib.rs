//! The core of a black-box hyperparameter tuner: the parameter space, the
//! ask/tell sequencing of a trial, the command line handed to the objective,
//! the reading of its tabular result, and the rows of the result log.

pub mod binary64;
pub mod decimal;
pub mod text;
pub mod param;
pub mod space;
pub mod command;
pub mod table;
pub mod ingest;
pub mod run;
