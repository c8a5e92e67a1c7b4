pub mod cmdline;
pub mod plan;
pub mod prefix;
pub mod record;
pub mod sources;
pub mod text;
