use vstd::prelude::*;

use crate::cmdline::FastixeArgs;
use crate::text::{chars_of, ends_with, has_suffix, string_of};

verus! {

/// A configuration that cannot be run.
#[derive(Debug, Clone, Copy, PartialEq, Eq, Structural)]
pub enum ConfigError {
    /// No input source was given.
    NoInput,
    /// The input stream was combined with a file-based source.
    StdinWithFiles,
    /// The input stream was given without a caller-supplied prefix.
    StdinWithoutPrefix,
    /// Block-compressed merge output was asked for, and the native codec is absent.
    BgzipUnavailable,
    /// An index build was asked for, and the native codec is absent.
    IndexUnavailable,
}

pub open spec fn has_file_source(args: FastixeArgs) -> bool {
    args.input_genome is Some || args.input_list is Some || args.input_directory is Some
        || args.input_files is Some
}

/// The first configuration error of `args`, in the order the checks are made,
/// where `native_codec` tells whether block compression and indexing are available.
pub open spec fn config_outcome(args: FastixeArgs, native_codec: bool) -> Result<(), ConfigError> {
    if !has_file_source(args) && args.input_stdin is None {
        Err(ConfigError::NoInput)
    } else if has_file_source(args) && args.input_stdin is Some {
        Err(ConfigError::StdinWithFiles)
    } else if args.input_stdin is Some && args.prefix is None {
        Err(ConfigError::StdinWithoutPrefix)
    } else if args.merge_output && args.merge_bgzip_output && !native_codec {
        Err(ConfigError::BgzipUnavailable)
    } else if args.merge_output && args.faidx && !native_codec {
        Err(ConfigError::IndexUnavailable)
    } else {
        Ok(())
    }
}

/// Checks a configuration before any output is made.
pub fn check_args_valid(args: &FastixeArgs, native_codec: bool) -> (r: Result<(), ConfigError>)
    ensures
        r == config_outcome(*args, native_codec),
{
    let files = args.input_genome.is_some() || args.input_list.is_some()
        || args.input_directory.is_some() || args.input_files.is_some();
    if !files && args.input_stdin.is_none() {
        Err(ConfigError::NoInput)
    } else if files && args.input_stdin.is_some() {
        Err(ConfigError::StdinWithFiles)
    } else if args.input_stdin.is_some() && args.prefix.is_none() {
        Err(ConfigError::StdinWithoutPrefix)
    } else if args.merge_output && args.merge_bgzip_output && !native_codec {
        Err(ConfigError::BgzipUnavailable)
    } else if args.merge_output && args.faidx && !native_codec {
        Err(ConfigError::IndexUnavailable)
    } else {
        Ok(())
    }
}

/// Names of sequence files: `.fa`, `.fna`, `.fasta`, each optionally followed by `.gz`.
pub open spec fn is_fasta_name(s: Seq<char>) -> bool {
    ends_with(s, seq!['.', 'f', 'a']) || ends_with(s, seq!['.', 'f', 'n', 'a']) || ends_with(
        s,
        seq!['.', 'f', 'a', 's', 't', 'a'],
    ) || ends_with(s, seq!['.', 'f', 'a', '.', 'g', 'z']) || ends_with(
        s,
        seq!['.', 'f', 'n', 'a', '.', 'g', 'z'],
    ) || ends_with(s, seq!['.', 'f', 'a', 's', 't', 'a', '.', 'g', 'z'])
}

/// Names of gzip-compressed files: they end in `.gz`.
pub open spec fn is_gzip_name(s: Seq<char>) -> bool {
    ends_with(s, seq!['.', 'g', 'z'])
}

/// Whether `path` names a sequence file.
pub fn is_fasta(path: &str) -> (r: bool)
    ensures
        r == is_fasta_name(path@),
{
    let s = chars_of(path);
    let fa = vec!['.', 'f', 'a'];
    let fna = vec!['.', 'f', 'n', 'a'];
    let fasta = vec!['.', 'f', 'a', 's', 't', 'a'];
    let fa_gz = vec!['.', 'f', 'a', '.', 'g', 'z'];
    let fna_gz = vec!['.', 'f', 'n', 'a', '.', 'g', 'z'];
    let fasta_gz = vec!['.', 'f', 'a', 's', 't', 'a', '.', 'g', 'z'];
    assert(fa@ =~= seq!['.', 'f', 'a']);
    assert(fna@ =~= seq!['.', 'f', 'n', 'a']);
    assert(fasta@ =~= seq!['.', 'f', 'a', 's', 't', 'a']);
    assert(fa_gz@ =~= seq!['.', 'f', 'a', '.', 'g', 'z']);
    assert(fna_gz@ =~= seq!['.', 'f', 'n', 'a', '.', 'g', 'z']);
    assert(fasta_gz@ =~= seq!['.', 'f', 'a', 's', 't', 'a', '.', 'g', 'z']);
    has_suffix(s.as_slice(), fa.as_slice()) || has_suffix(s.as_slice(), fna.as_slice())
        || has_suffix(s.as_slice(), fasta.as_slice()) || has_suffix(s.as_slice(), fa_gz.as_slice())
        || has_suffix(s.as_slice(), fna_gz.as_slice()) || has_suffix(
        s.as_slice(),
        fasta_gz.as_slice(),
    )
}

/// Whether the file at `path` is to be read through a gzip decoder.
pub fn is_gzip(path: &str) -> (r: bool)
    ensures
        r == is_gzip_name(path@),
{
    let s = chars_of(path);
    let gz = vec!['.', 'g', 'z'];
    assert(gz@ =~= seq!['.', 'g', 'z']);
    has_suffix(s.as_slice(), gz.as_slice())
}

/// A path offered as input, with what the file system said of it.
#[derive(Debug, Clone)]
pub struct Candidate {
    pub path: String,
    pub exists: bool,
    pub is_file: bool,
}

/// Whether a candidate is taken: a listed path must exist; a path given among
/// several files or found in a directory must be a regular sequence file.
pub open spec fn accepted(c: Candidate, need_fasta: bool) -> bool {
    if need_fasta {
        c.is_file && is_fasta_name(c.path@)
    } else {
        c.exists
    }
}

/// The paths of the accepted candidates, in order.
pub open spec fn selected(cs: Seq<Candidate>, need_fasta: bool) -> Seq<Seq<char>>
    decreases cs.len(),
{
    if cs.len() == 0 {
        Seq::empty()
    } else {
        let before = selected(cs.drop_last(), need_fasta);
        if accepted(cs.last(), need_fasta) {
            before.push(cs.last().path@)
        } else {
            before
        }
    }
}

pub open spec fn strings_view(v: Seq<String>) -> Seq<Seq<char>> {
    v.map_values(|s: String| s@)
}

fn copy_string(s: &String) -> (r: String)
    ensures
        r@ == s@,
{
    let cs = chars_of(s.as_str());
    string_of(cs.as_slice())
}

fn select_into(out: &mut Vec<String>, cs: &Vec<Candidate>, need_fasta: bool)
    ensures
        strings_view(final(out)@) == strings_view(old(out)@) + selected(cs@, need_fasta),
{
    let ghost start = strings_view(out@);
    let mut k: usize = 0;
    while k < cs.len()
        invariant
            0 <= k <= cs@.len(),
            strings_view(out@) == start + selected(cs@.subrange(0, k as int), need_fasta),
        decreases cs@.len() - k,
    {
        let c = &cs[k];
        let take = if need_fasta {
            c.is_file && is_fasta(c.path.as_str())
        } else {
            c.exists
        };
        assert(cs@.subrange(0, k + 1).drop_last() =~= cs@.subrange(0, k as int));
        assert(cs@.subrange(0, k + 1).last() == cs@[k as int]);
        assert(take == accepted(cs@[k as int], need_fasta));
        if take {
            let ghost prev = out@;
            let p = copy_string(&c.path);
            out.push(p);
            assert(strings_view(out@) =~= strings_view(prev).push(p@));
            assert(strings_view(out@) =~= start + selected(cs@.subrange(0, k + 1), need_fasta));
        }
        k = k + 1;
    }
    assert(cs@.subrange(0, cs@.len() as int) =~= cs@);
}

/// The ordered input list of a run: the stream marker if given, then the single
/// genome if it exists, then the accepted explicit files, then the existing paths
/// of the list file, then the sequence files found in the directory. Nothing is
/// deduplicated.
pub open spec fn sources_of(
    stdin: Option<Seq<char>>,
    genome: Option<Candidate>,
    files: Seq<Candidate>,
    listed: Seq<Candidate>,
    dir_entries: Seq<Candidate>,
) -> Seq<Seq<char>> {
    let a: Seq<Seq<char>> = match stdin {
        Some(s) => seq![s],
        None => Seq::empty(),
    };
    let b: Seq<Seq<char>> = match genome {
        Some(g) => if g.exists {
            seq![g.path@]
        } else {
            Seq::empty()
        },
        None => Seq::empty(),
    };
    a + b + selected(files, true) + selected(listed, false) + selected(dir_entries, true)
}

/// Resolves the inputs of a run into one ordered list of paths.
pub fn parse_files(
    stdin: &Option<String>,
    genome: &Option<Candidate>,
    files: &Vec<Candidate>,
    listed: &Vec<Candidate>,
    dir_entries: &Vec<Candidate>,
) -> (r: Vec<String>)
    ensures
        strings_view(r@) == sources_of(
            match stdin {
                Some(s) => Some(s@),
                None => None,
            },
            *genome,
            files@,
            listed@,
            dir_entries@,
        ),
{
    let mut out: Vec<String> = Vec::new();
    match stdin {
        Some(s) => out.push(copy_string(s)),
        None => {},
    }
    match genome {
        Some(g) => if g.exists {
            out.push(copy_string(&g.path));
        },
        None => {},
    }
    let ghost head = strings_view(out@);
    select_into(&mut out, files, true);
    select_into(&mut out, listed, false);
    select_into(&mut out, dir_entries, true);
    proof {
        let a: Seq<Seq<char>> = match stdin {
            Some(s) => seq![s@],
            None => Seq::empty(),
        };
        let b: Seq<Seq<char>> = match genome {
            Some(g) => if g.exists {
                seq![g.path@]
            } else {
                Seq::empty()
            },
            None => Seq::empty(),
        };
        assert(head =~= a + b);
    }
    out
}

} // verus!
