pub mod dns;
pub mod domain_verdict;
pub mod email_verdict;
pub mod parse;
pub mod text;

pub use dns::ResolverTrait;
pub use email_verdict::{analyze_email, AnalysisResult, Evidence, Verdict};
pub use parse::{extract_domain, parse_email, EmailParsed};

