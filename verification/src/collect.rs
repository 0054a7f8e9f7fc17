pub mod coverage;
pub mod coverage_laws;
pub mod documents;
pub mod fact_laws;
pub mod facts;
pub mod git;
pub mod loc;
pub mod project;
pub mod report_laws;
pub mod reports;
pub mod scan_laws;
pub mod system;
pub mod time;
pub mod toolchain;
pub mod toolchain_laws;
