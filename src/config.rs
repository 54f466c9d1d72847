//! Configuration: data layout, dimensions, thresholds and port.

use vstd::prelude::*;
use vstd::string::StringExecFns;

verus! {

pub const DEFAULT_EMBEDDING_DIMENSIONS: usize = 384;
pub const DEFAULT_MAX_RETRIEVAL_RESULTS: usize = 10;
/// Fractions of one are held in millionths.
pub const PPM_ONE: u32 = 1_000_000;
pub const DEFAULT_MIN_SIMILARITY_PPM: u32 = 700_000;
pub const DEFAULT_WARNING_PPM: u32 = 800_000;
pub const DEFAULT_CRITICAL_PPM: u32 = 950_000;
pub const DEFAULT_SERVER_PORT: u16 = 8420;

/// Relies on `dirs::data_local_dir`: the platform's per-user data directory,
/// if it has one. Nothing is promised of its value.
#[verifier::external_body]
fn local_data_dir() -> (r: Option<String>) {
    dirs::data_local_dir().map(|p| p.to_string_lossy().into_owned())
}

/// Configuration of the memory service. Fractions (similarity floor, budget
/// thresholds) are in millionths.
pub struct Config {
    /// Root of all on-disk state.
    pub data_dir: String,
    /// Name of the embedding model; determines the dimension.
    pub embedding_model: String,
    pub embedding_dimensions: usize,
    /// Upper bound on memories returned by a retrieval.
    pub max_retrieval_results: usize,
    pub min_similarity_ppm: u32,
    pub context_warning_ppm: u32,
    pub context_critical_ppm: u32,
    pub server_port: u16,
}

impl Config {
    /// The defaults, over a given data directory.
    pub open spec fn defaults_over(&self, data_dir: Seq<char>) -> bool {
        &&& self.data_dir@ == data_dir
        &&& self.embedding_model@ == "all-MiniLM-L6-v2"@
        &&& self.embedding_dimensions == DEFAULT_EMBEDDING_DIMENSIONS
        &&& self.max_retrieval_results == DEFAULT_MAX_RETRIEVAL_RESULTS
        &&& self.min_similarity_ppm == DEFAULT_MIN_SIMILARITY_PPM
        &&& self.context_warning_ppm == DEFAULT_WARNING_PPM
        &&& self.context_critical_ppm == DEFAULT_CRITICAL_PPM
        &&& self.server_port == DEFAULT_SERVER_PORT
    }

    /// The default configuration over a custom data directory.
    pub fn with_data_dir(data_dir: String) -> (r: Config)
        ensures
            r.defaults_over(data_dir@),
    {
        Config {
            data_dir,
            embedding_model: String::from_str("all-MiniLM-L6-v2"),
            embedding_dimensions: DEFAULT_EMBEDDING_DIMENSIONS,
            max_retrieval_results: DEFAULT_MAX_RETRIEVAL_RESULTS,
            min_similarity_ppm: DEFAULT_MIN_SIMILARITY_PPM,
            context_warning_ppm: DEFAULT_WARNING_PPM,
            context_critical_ppm: DEFAULT_CRITICAL_PPM,
            server_port: DEFAULT_SERVER_PORT,
        }
    }

    fn under(&self, rel: &str) -> (r: String)
        ensures
            r@ == self.data_dir@ + "/"@ + rel@,
    {
        let mut p = self.data_dir.clone();
        p.append("/");
        p.append(rel);
        p
    }

    /// `<data_dir>/metadata.db`
    pub fn sqlite_path(&self) -> (r: String)
        ensures
            r@ == self.data_dir@ + "/"@ + "metadata.db"@,
    {
        self.under("metadata.db")
    }

    /// `<data_dir>/vectors`
    pub fn vector_db_path(&self) -> (r: String)
        ensures
            r@ == self.data_dir@ + "/"@ + "vectors"@,
    {
        self.under("vectors")
    }

    /// `<data_dir>/conversations/<agent>/<topic>.jsonl`
    pub fn conversation_log_path(&self, agent_id: &str, topic_id: &str) -> (r: String)
        ensures
            r@ == self.data_dir@ + "/"@ + "conversations"@ + "/"@ + agent_id@ + "/"@ + topic_id@ + ".jsonl"@,
    {
        let mut p = self.under("conversations");
        p.append("/");
        p.append(agent_id);
        p.append("/");
        p.append(topic_id);
        p.append(".jsonl");
        p
    }

    /// The directories that must exist before the stores open: the data
    /// directory, its conversation root and its vector directory.
    pub fn required_dirs(&self) -> (r: Vec<String>)
        ensures
            r@.len() == 3,
            r@[0]@ == self.data_dir@,
            r@[1]@ == self.data_dir@ + "/"@ + "conversations"@,
            r@[2]@ == self.data_dir@ + "/"@ + "vectors"@,
    {
        let mut v: Vec<String> = Vec::new();
        v.push(self.data_dir.clone());
        v.push(self.under("conversations"));
        v.push(self.vector_db_path());
        v
    }
}

impl Default for Config {
    /// Defaults over `<local data dir>/dieah-memory`, or `./dieah-memory`
    /// where the platform has no such directory.
    fn default() -> (r: Config)
        ensures
            exists|base: Seq<char>| r.defaults_over(base + "/"@ + "dieah-memory"@),
    {
        let mut dir = match local_data_dir() {
            Some(d) => d,
            None => String::from_str("."),
        };
        let ghost base = dir@;
        dir.append("/");
        dir.append("dieah-memory");
        let r = Config::with_data_dir(dir);
        assert(r.defaults_over(base + "/"@ + "dieah-memory"@));
        r
    }
}

} // verus!
