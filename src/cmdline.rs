use vstd::prelude::*;

verus! {

/// The options of one `fastixe` run. Paths are held as strings.
#[derive(Default, Debug, Clone)]
pub struct FastixeArgs {
    /// Input stream marker (`-` for the standard input).
    pub input_stdin: Option<String>,
    /// A single input genome.
    pub input_genome: Option<String>,
    /// Several input files.
    pub input_files: Option<Vec<String>>,
    /// A file listing one input path per line.
    pub input_list: Option<String>,
    /// A directory of sequence files.
    pub input_directory: Option<String>,
    /// Where output files go.
    pub out_directory: String,
    /// Write per-file output to the standard output.
    pub is_stdout: bool,
    /// A tag put before every record identifier, for every file.
    pub prefix: Option<String>,
    /// The pattern matched against file names to derive a tag.
    pub reg: String,
    /// Convert sequence letters to uppercase.
    pub uppercase: bool,
    /// Gzip the per-file output.
    pub gzip_output: bool,
    /// Name of the merged output file, under the output directory.
    pub merge_output_file_path: String,
    /// Merge all records into one file.
    pub merge_output: bool,
    /// Block-compress the merged output (bgzip).
    pub merge_bgzip_output: bool,
    /// Build an index of the merged bgzip file.
    pub faidx: bool,
    /// Compression level, 0 to 9.
    pub compression_level: Option<u32>,
    /// Number of worker threads.
    pub threads: usize,
    /// Trace-level diagnostics.
    pub trace: bool,
    /// Debug-level diagnostics.
    pub debug: bool,
}

/// The subcommands of the tool.
pub enum Mode {
    Fastixe(FastixeArgs),
}

/// The parsed command line.
pub struct Cli {
    pub mode: Mode,
}

} // verus!
