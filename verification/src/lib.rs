pub mod meta;
pub mod rewrite;
pub mod style;
pub mod extract;
pub mod issue;
pub mod watch;
pub mod zine;
