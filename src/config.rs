use vstd::prelude::*;

verus! {

/// Settings of the service.
#[derive(Debug, PartialEq)]
pub struct Config {
    /// address to bind the application to
    pub bind_addr: String,
    /// database connection url
    pub database_url: String,
    /// number of database connections to pool
    pub database_pool_size: usize,
    /// directory containing static files (static/) and templates (template/)
    pub files_dir: String,
}

impl Default for Config {
    fn default() -> (r: Config)
        ensures
            r.bind_addr@ == "localhost:8080"@,
            r.database_url@ == "redis://localhost:6379"@,
            r.database_pool_size == 8,
            r.files_dir@ == "."@,
    {
        Config {
            bind_addr: String::from_str("localhost:8080"),
            database_url: String::from_str("redis://localhost:6379"),
            database_pool_size: 8,
            files_dir: String::from_str("."),
        }
    }
}

/// A configuration source that tries several files in turn and takes the
/// first that exists; it is not an error when none does.
#[derive(Debug)]
pub struct MultiFileSource {
    pub paths: Vec<String>,
    pub allow_secrets: bool,
}

impl MultiFileSource {
    /// Create the source with paths to try, in order.
    pub fn new(paths: Vec<String>) -> (r: MultiFileSource)
        ensures
            r.paths@ == paths@,
            !r.allow_secrets,
    {
        MultiFileSource { paths, allow_secrets: false }
    }

    /// Allow secrets to come from this source.
    pub fn allow_secrets(self) -> (r: MultiFileSource)
        ensures
            r.paths@ == self.paths@,
            r.allow_secrets,
    {
        let mut s = self;
        s.allow_secrets = true;
        s
    }

    /// Whether secrets may come from this source.
    pub fn allows_secrets(&self) -> (r: bool)
        ensures
            r == self.allow_secrets,
    {
        self.allow_secrets
    }
}

} // verus!
