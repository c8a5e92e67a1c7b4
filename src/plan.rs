use vstd::prelude::*;

use crate::cmdline::FastixeArgs;
use crate::prefix::{extract_prefix_from_path, prefix_result, result_view, PrefixError};
use crate::record::{
    format_record, is_header, join_lines, lemma_lines_text_append,
    lemma_merged_record_matches_per_file, lemma_text_out_append, lines_text, record_text, text_out,
};
use crate::sources::strings_view;
use crate::text::{
    base_start, chars_of, component_start, copy_range, file_name, file_name_of, push_chars,
    string_of, trim_len, trimmed_len,
};

verus! {

/// `name` put under the directory `dir`.
pub open spec fn join_path(dir: Seq<char>, name: Seq<char>) -> Seq<char> {
    if dir.len() == 0 {
        name
    } else if dir.last() == '/' {
        dir + name
    } else {
        dir + seq!['/'] + name
    }
}

/// Where per-file mode writes the output of `input`: a file of the same name
/// under `out_dir`, with `.gz` appended when the output is compressed.
pub open spec fn output_path_of(input: Seq<char>, out_dir: Seq<char>, gzip: bool) -> Option<
    Seq<char>,
> {
    match file_name_of(input) {
        Some(n) => Some(join_path(out_dir, if gzip {
            n + seq!['.', 'g', 'z']
        } else {
            n
        })),
        None => None,
    }
}

/// Position of the last `.` in `s`, or -1.
pub open spec fn last_dot(s: Seq<char>) -> int
    decreases s.len(),
{
    if s.len() == 0 {
        -1
    } else if s.last() == '.' {
        s.len() - 1
    } else {
        last_dot(s.drop_last())
    }
}

/// `p` with the extension of its file name set to `gz`: trailing `/` and `.`
/// parts are dropped, then an extension (the text after the last `.` of the name,
/// where that `.` is not its first character) is replaced, else `.gz` is appended.
/// A path without a file name is kept.
pub open spec fn with_gz_extension(p: Seq<char>) -> Seq<char> {
    let t = p.subrange(0, trim_len(p));
    let b = base_start(t);
    let d = last_dot(t.subrange(b, t.len() as int));
    if file_name_of(p) is None {
        p
    } else if d > 0 {
        t.subrange(0, b + d) + seq!['.', 'g', 'z']
    } else {
        t + seq!['.', 'g', 'z']
    }
}

fn join_chars(dir: &[char], name: &[char]) -> (r: Vec<char>)
    ensures
        r@ == join_path(dir@, name@),
{
    let mut out = copy_range(dir, 0, dir.len());
    assert(dir@.subrange(0, dir@.len() as int) =~= dir@);
    if dir.len() > 0 && dir[dir.len() - 1] != '/' {
        out.push('/');
    }
    push_chars(&mut out, name);
    if dir.len() == 0 {
        assert(out@ =~= name@);
    }
    out
}

/// The output path of `input` in per-file mode; `None` when `input` has no file name.
pub fn make_output_path(input: &str, out_dir: &str, gzip_output: bool) -> (r: Option<String>)
    ensures
        match output_path_of(input@, out_dir@, gzip_output) {
            Some(p) => r is Some && r->0@ == p,
            None => r is None,
        },
{
    let cs = chars_of(input);
    match file_name(cs.as_slice()) {
        None => None,
        Some(n) => {
            let mut name = n;
            if gzip_output {
                name.push('.');
                name.push('g');
                name.push('z');
                assert(name@ =~= n@ + seq!['.', 'g', 'z']);
            }
            let d = chars_of(out_dir);
            let p = join_chars(d.as_slice(), name.as_slice());
            Some(string_of(p.as_slice()))
        },
    }
}

fn gz_extension_chars(p: &[char]) -> (r: Vec<char>)
    ensures
        r@ == with_gz_extension(p@),
{
    if file_name(p).is_none() {
        let r = copy_range(p, 0, p.len());
        assert(p@.subrange(0, p@.len() as int) =~= p@);
        return r;
    }
    let end = trimmed_len(p);
    let b = component_start(p, end);
    let ghost t = p@.subrange(0, end as int);
    let ghost name = t.subrange(b as int, end as int);
    let mut j: usize = end;
    assert(name.subrange(0, (j - b) as int) =~= name);
    while j > b && p[j - 1] != '.'
        invariant
            b <= j <= end <= p@.len(),
            t == p@.subrange(0, end as int),
            name == t.subrange(b as int, end as int),
            last_dot(name.subrange(0, j - b)) == last_dot(name),
        decreases j,
    {
        assert(name.subrange(0, j - b).drop_last() =~= name.subrange(0, j - 1 - b));
        j = j - 1;
    }
    proof {
        if j > b {
            assert(name.subrange(0, j - b).last() == '.');
        } else {
            assert(name.subrange(0, 0) =~= Seq::<char>::empty());
        }
    }
    let mut out: Vec<char>;
    if j > b + 1 {
        out = copy_range(p, 0, j - 1);
        assert(out@ =~= t.subrange(0, j - 1));
    } else {
        out = copy_range(p, 0, end);
    }
    out.push('.');
    out.push('g');
    out.push('z');
    assert(out@ =~= with_gz_extension(p@));
    out
}

/// The path of the merged output: `merge_name` under `out_dir`, with its
/// extension set to `gz` when the output is block-compressed.
pub fn merge_output_path(out_dir: &str, merge_name: &str, bgzip: bool) -> (r: String)
    ensures
        r@ == (if bgzip {
            with_gz_extension(join_path(out_dir@, merge_name@))
        } else {
            join_path(out_dir@, merge_name@)
        }),
{
    let d = chars_of(out_dir);
    let n = chars_of(merge_name);
    let j = join_chars(d.as_slice(), n.as_slice());
    if bgzip {
        let g = gz_extension_chars(j.as_slice());
        string_of(g.as_slice())
    } else {
        string_of(j.as_slice())
    }
}

/// How an output is written.
#[derive(Debug, Clone, Copy, PartialEq, Eq, Structural)]
pub enum SinkKind {
    /// Buffered passthrough.
    Plain,
    /// Single-threaded gzip compression.
    Gzip,
    /// Multi-threaded block compression (bgzip), which needs the native codec.
    Bgzip,
}

/// The tag for the records of `input`: the caller's prefix when there is one,
/// else the one derived from the file name.
pub open spec fn tag_for(args: FastixeArgs, input: Seq<char>) -> Result<Seq<char>, PrefixError> {
    match args.prefix {
        Some(p) => Ok(p@),
        None => prefix_result(input, args.reg@),
    }
}

/// Computes the tag for the records of `input`.
pub fn file_prefix(args: &FastixeArgs, input: &str) -> (r: Result<String, PrefixError>)
    ensures
        result_view(r) == tag_for(*args, input@),
{
    match &args.prefix {
        Some(p) => {
            let cs = chars_of(p.as_str());
            Ok(string_of(cs.as_slice()))
        },
        None => extract_prefix_from_path(input, args.reg.as_str()),
    }
}

/// The work for one input in per-file mode.
pub struct FileJob {
    pub input: String,
    /// Where to write; `None` for the standard output.
    pub output: Option<String>,
    pub prefix: String,
    pub uppercase: bool,
    pub sink: SinkKind,
}

/// Whether per-file output of `input` goes to the standard output: when asked,
/// or when the input is the stream marker `-`.
pub open spec fn to_stdout(args: FastixeArgs, input: Seq<char>) -> bool {
    args.is_stdout || input == seq!['-']
}

/// Plans the per-file processing of `input`: where it goes, with which tag and
/// how it is compressed. Fails with `InvalidPath` when the output needs a file
/// name that `input` lacks, else with the error of the tag.
pub fn plan_file(args: &FastixeArgs, input: &str) -> (r: Result<FileJob, PrefixError>)
    ensures
        !to_stdout(*args, input@) && output_path_of(input@, args.out_directory@, args.gzip_output)
            is None ==> r == Err::<FileJob, PrefixError>(PrefixError::InvalidPath),
        (to_stdout(*args, input@) || output_path_of(
            input@,
            args.out_directory@,
            args.gzip_output,
        ) is Some) ==> match tag_for(*args, input@) {
            Err(e) => r == Err::<FileJob, PrefixError>(e),
            Ok(t) => r is Ok && r->Ok_0.prefix@ == t && r->Ok_0.input@ == input@
                && r->Ok_0.uppercase == args.uppercase && r->Ok_0.sink == (if args.gzip_output {
                SinkKind::Gzip
            } else {
                SinkKind::Plain
            }) && if to_stdout(*args, input@) {
                r->Ok_0.output is None
            } else {
                r->Ok_0.output is Some && r->Ok_0.output->0@ == output_path_of(
                    input@,
                    args.out_directory@,
                    args.gzip_output,
                )->0
            },
        },
{
    let cs = chars_of(input);
    let is_stream = cs.len() == 1 && cs[0] == '-';
    assert(is_stream == (input@ == seq!['-'])) by {
        if cs@.len() == 1 && cs@[0] == '-' {
            assert(input@ =~= seq!['-']);
        }
    }
    let output = if args.is_stdout || is_stream {
        None
    } else {
        match make_output_path(input, args.out_directory.as_str(), args.gzip_output) {
            Some(p) => Some(p),
            None => {
                return Err(PrefixError::InvalidPath);
            },
        }
    };
    let prefix = match file_prefix(args, input) {
        Ok(p) => p,
        Err(e) => {
            return Err(e);
        },
    };
    let sink = if args.gzip_output {
        SinkKind::Gzip
    } else {
        SinkKind::Plain
    };
    Ok(FileJob { input: string_of(cs.as_slice()), output, prefix, uppercase: args.uppercase, sink })
}

/// The single output of merge mode.
pub struct MergePlan {
    pub path: String,
    pub sink: SinkKind,
    /// Build an index of the finished file.
    pub build_index: bool,
}

/// Plans the merged output: block-compressed when asked (the file then takes the
/// `gz` extension), else gzip when per-file gzip was asked, else plain; the index
/// is built when asked.
pub fn plan_merge(args: &FastixeArgs) -> (r: MergePlan)
    ensures
        r.path@ == (if args.merge_bgzip_output {
            with_gz_extension(join_path(args.out_directory@, args.merge_output_file_path@))
        } else {
            join_path(args.out_directory@, args.merge_output_file_path@)
        }),
        r.sink == (if args.merge_bgzip_output {
            SinkKind::Bgzip
        } else if args.gzip_output {
            SinkKind::Gzip
        } else {
            SinkKind::Plain
        }),
        r.build_index == args.faidx,
{
    let path = merge_output_path(
        args.out_directory.as_str(),
        args.merge_output_file_path.as_str(),
        args.merge_bgzip_output,
    );
    let sink = if args.merge_bgzip_output {
        SinkKind::Bgzip
    } else if args.gzip_output {
        SinkKind::Gzip
    } else {
        SinkKind::Plain
    };
    MergePlan { path, sink, build_index: args.faidx }
}

/// One record as a parser hands it out: its header text (after `>`) and its
/// payload.
pub struct SeqRecord {
    pub id: String,
    pub seq: String,
}

/// The merged-output texts of `records`, in order.
pub open spec fn records_text(prefix: Seq<char>, records: Seq<SeqRecord>, uppercase: bool) -> Seq<
    Seq<char>,
>
    decreases records.len(),
{
    if records.len() == 0 {
        Seq::empty()
    } else {
        records_text(prefix, records.drop_last(), uppercase).push(
            record_text(prefix, records.last().id@, records.last().seq@, uppercase),
        )
    }
}

/// What one file contributes to the merged output: nothing when its tag could
/// not be had, else the text of each of its records, in order.
pub open spec fn contribution(
    tag: Result<Seq<char>, PrefixError>,
    records: Seq<SeqRecord>,
    uppercase: bool,
) -> Seq<Seq<char>> {
    match tag {
        Ok(t) => records_text(t, records, uppercase),
        Err(_) => Seq::empty(),
    }
}

/// Formats the records of one file for the merged output.
pub fn merge_contribution(tag: &Result<String, PrefixError>, records: &Vec<SeqRecord>, uppercase: bool) -> (r: Vec<String>)
    ensures
        strings_view(r@) == contribution(result_view(*tag), records@, uppercase),
{
    let mut out: Vec<String> = Vec::new();
    match tag {
        Err(_) => out,
        Ok(t) => {
            let mut k: usize = 0;
            while k < records.len()
                invariant
                    0 <= k <= records@.len(),
                    strings_view(out@) == records_text(t@, records@.subrange(0, k as int), uppercase),
                decreases records@.len() - k,
            {
                let rec = &records[k];
                assert(records@.subrange(0, k + 1).drop_last() =~= records@.subrange(0, k as int));
                assert(records@.subrange(0, k + 1).last() == records@[k as int]);
                let text = format_record(t.as_str(), rec.id.as_str(), rec.seq.as_str(), uppercase);
                let ghost prev = out@;
                out.push(text);
                assert(strings_view(out@) =~= strings_view(prev).push(text@));
                k = k + 1;
            }
            assert(records@.subrange(0, records@.len() as int) =~= records@);
            out
        },
    }
}

/// Texts one after the other.
pub open spec fn concat_all(texts: Seq<Seq<char>>) -> Seq<char>
    decreases texts.len(),
{
    if texts.len() == 0 {
        Seq::empty()
    } else {
        concat_all(texts.drop_last()) + texts.last()
    }
}

/// The lines of a file that holds `records`, the payload of each written as the
/// lines `payloads[i]`: for each record its header line `>` + header text, then
/// its payload lines.
pub open spec fn file_lines(records: Seq<SeqRecord>, payloads: Seq<Seq<Seq<char>>>) -> Seq<
    Seq<char>,
>
    decreases records.len(),
{
    if records.len() == 0 || payloads.len() == 0 {
        Seq::empty()
    } else {
        file_lines(records.drop_last(), payloads.drop_last()) + (seq![
            seq!['>'] + records.last().id@,
        ] + payloads.last())
    }
}

/// What merge mode writes for one file, record after record, is exactly what
/// per-file mode writes for it, with every header and payload unchanged and the
/// records in file order. It holds for a file whose records each have at least
/// one payload line, where no payload line opens a record, and whose parsed
/// payloads are those lines joined by newlines.
pub proof fn lemma_merged_file_matches_per_file(
    prefix: Seq<char>,
    records: Seq<SeqRecord>,
    payloads: Seq<Seq<Seq<char>>>,
    uppercase: bool,
)
    requires
        records.len() == payloads.len(),
        forall|i: int|
            0 <= i < records.len() ==> (#[trigger] payloads[i]).len() >= 1 && records[i].seq@
                == join_lines(payloads[i]),
        forall|i: int, j: int|
            0 <= i < payloads.len() && 0 <= j < payloads[i].len() ==> !is_header(
                #[trigger] payloads[i][j],
            ),
    ensures
        concat_all(records_text(prefix, records, uppercase)) == lines_text(
            text_out(file_lines(records, payloads), prefix, uppercase),
        ),
    decreases records.len(),
{
    if records.len() > 0 {
        let ri = records.drop_last();
        let pi = payloads.drop_last();
        assert forall|i: int| 0 <= i < ri.len() implies (#[trigger] pi[i]).len() >= 1
            && ri[i].seq@ == join_lines(pi[i]) by {
            assert(pi[i] == payloads[i]);
        }
        assert forall|i: int, j: int| 0 <= i < pi.len() && 0 <= j < pi[i].len() implies !is_header(
            #[trigger] pi[i][j],
        ) by {
            assert(pi[i] == payloads[i]);
        }
        lemma_merged_file_matches_per_file(prefix, ri, pi, uppercase);
        let last = records.last();
        let pl = payloads.last();
        assert(pl == payloads[payloads.len() - 1]);
        assert forall|j: int| 0 <= j < pl.len() implies !is_header(#[trigger] pl[j]) by {
            assert(pl[j] == payloads[payloads.len() - 1][j]);
        }
        lemma_merged_record_matches_per_file(prefix, last.id@, pl, uppercase);
        let head = file_lines(ri, pi);
        let tail = seq![seq!['>'] + last.id@] + pl;
        lemma_text_out_append(head, tail, prefix, uppercase);
        lemma_lines_text_append(
            text_out(head, prefix, uppercase),
            text_out(tail, prefix, uppercase),
        );
        let texts = records_text(prefix, records, uppercase);
        assert(texts.drop_last() == records_text(prefix, ri, uppercase));
    }
}

} // verus!
