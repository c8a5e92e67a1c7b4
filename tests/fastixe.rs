use std::io::{Read, Write};

use panutils::cmdline::FastixeArgs;
use panutils::plan::{
    file_prefix, make_output_path, merge_contribution, merge_output_path, plan_file, plan_merge,
    SeqRecord, SinkKind,
};
use panutils::prefix::{extract_prefix_from_path, prefix_from_match, PrefixError};
use panutils::record::{format_record, transform_line, transform_lines};
use panutils::sources::{check_args_valid, is_fasta, is_gzip, parse_files, Candidate, ConfigError};

const GENOME_A: &str = "tests/GCF_002012065.1_ASM201206v1_genomic.fna";
const GENOME_B: &str = "tests/GCF_006400955.1_ASM640095v1_genomic.fna";

fn base_args() -> FastixeArgs {
    FastixeArgs {
        out_directory: "genomes".to_string(),
        reg: "[^_]+_[^_]+".to_string(),
        merge_output_file_path: "merged.fa".to_string(),
        threads: 1,
        ..Default::default()
    }
}

fn cand(path: &str, exists: bool, is_file: bool) -> Candidate {
    Candidate { path: path.to_string(), exists, is_file }
}

fn lines(text: &[&str]) -> Vec<String> {
    text.iter().map(|s| s.to_string()).collect()
}

fn to_text(out: &[String]) -> String {
    let mut t = String::new();
    for l in out {
        t.push_str(l);
        t.push('\n');
    }
    t
}

#[test]
fn test_cli1() {
    let mut args = base_args();
    args.input_genome = Some(GENOME_A.to_string());
    args.uppercase = true;
    assert_eq!(check_args_valid(&args, false), Ok(()));
    let job = plan_file(&args, GENOME_A).ok().unwrap();
    assert_eq!(job.prefix, "GCF_002012065.1#0#");
    assert_eq!(job.output, Some("genomes/GCF_002012065.1_ASM201206v1_genomic.fna".to_string()));
    assert!(job.uppercase);
    assert_eq!(job.sink, SinkKind::Plain);
}

#[test]
fn test_cli2() {
    let mut args = base_args();
    args.input_genome = Some(GENOME_A.to_string());
    args.uppercase = true;
    args.prefix = Some("GCF_002012065.1#0#".to_string());
    assert_eq!(check_args_valid(&args, false), Ok(()));
    let job = plan_file(&args, GENOME_A).ok().unwrap();
    assert_eq!(job.prefix, "GCF_002012065.1#0#");
}

#[test]
fn test_cli3() {
    let mut args = base_args();
    args.input_files = Some(vec![GENOME_A.to_string(), GENOME_B.to_string()]);
    args.uppercase = true;
    assert_eq!(check_args_valid(&args, false), Ok(()));
    let files = vec![cand(GENOME_A, true, true), cand(GENOME_B, true, true)];
    let inputs = parse_files(&None, &None, &files, &vec![], &vec![]);
    assert_eq!(inputs, vec![GENOME_A.to_string(), GENOME_B.to_string()]);
    let a = plan_file(&args, &inputs[0]).ok().unwrap();
    let b = plan_file(&args, &inputs[1]).ok().unwrap();
    assert_eq!(a.prefix, "GCF_002012065.1#0#");
    assert_eq!(b.prefix, "GCF_006400955.1#0#");
}

#[test]
fn test_cli4() {
    let mut args = base_args();
    args.input_list = Some("tests/test_genome_list.txt".to_string());
    args.uppercase = true;
    assert_eq!(check_args_valid(&args, false), Ok(()));
    let listed = vec![cand(GENOME_A, true, true), cand("tests/missing.fna", false, false)];
    let inputs = parse_files(&None, &None, &vec![], &listed, &vec![]);
    assert_eq!(inputs, vec![GENOME_A.to_string()]);
}

#[test]
fn test_cli5() {
    let mut args = base_args();
    args.input_directory = Some("tests/".to_string());
    args.uppercase = true;
    assert_eq!(check_args_valid(&args, false), Ok(()));
    let entries = vec![
        cand(GENOME_A, true, true),
        cand("tests/test.rs", true, true),
        cand("tests/test_genome_list.txt", true, true),
        cand(GENOME_B, true, true),
    ];
    let inputs = parse_files(&None, &None, &vec![], &vec![], &entries);
    assert_eq!(inputs, vec![GENOME_A.to_string(), GENOME_B.to_string()]);
}

#[test]
fn test_cli6() {
    let mut args = base_args();
    args.input_directory = Some("tests/".to_string());
    args.gzip_output = true;
    args.uppercase = true;
    assert_eq!(check_args_valid(&args, false), Ok(()));
    let job = plan_file(&args, GENOME_B).ok().unwrap();
    assert_eq!(job.output, Some("genomes/GCF_006400955.1_ASM640095v1_genomic.fna.gz".to_string()));
    assert_eq!(job.sink, SinkKind::Gzip);
}

#[test]
fn test_cli7() {
    let mut args = base_args();
    args.input_directory = Some("tests/".to_string());
    args.merge_output = true;
    args.merge_bgzip_output = true;
    args.uppercase = true;
    assert_eq!(check_args_valid(&args, false), Err(ConfigError::BgzipUnavailable));
    assert_eq!(check_args_valid(&args, true), Ok(()));
    let plan = plan_merge(&args);
    assert_eq!(plan.path, "genomes/merged.gz");
    assert_eq!(plan.sink, SinkKind::Bgzip);
    assert!(!plan.build_index);
}

#[test]
fn test_cli8() {
    let mut args = base_args();
    args.input_directory = Some("tests/".to_string());
    args.merge_output = true;
    args.merge_bgzip_output = true;
    args.faidx = true;
    args.uppercase = true;
    assert_eq!(check_args_valid(&args, true), Ok(()));
    assert!(plan_merge(&args).build_index);
}

#[test]
fn test_cli9() {
    let mut args = base_args();
    args.input_directory = Some("tests/".to_string());
    args.merge_output = true;
    args.merge_output_file_path = "test_merged.fa".to_string();
    args.uppercase = true;
    assert_eq!(check_args_valid(&args, false), Ok(()));
    let plan = plan_merge(&args);
    assert_eq!(plan.path, "genomes/test_merged.fa");
    assert_eq!(plan.sink, SinkKind::Plain);
}

#[test]
fn header_keeps_first_token() {
    assert_eq!(transform_line(">NZ_CP1 some description", "P#0#", false), Some(">P#0#NZ_CP1".to_string()));
    assert_eq!(transform_line(">  \tid2\tx", "", true), Some(">id2".to_string()));
    assert_eq!(transform_line(">id\u{3000}rest", "T", false), Some(">Tid".to_string()));
}

#[test]
fn header_without_identifier_is_dropped() {
    assert_eq!(transform_line(">", "P", false), None);
    assert_eq!(transform_line(">   ", "P", true), None);
    let out = transform_lines(&lines(&[">", "acgt", ">x y", "gg"]), "P", false);
    assert_eq!(out, lines(&["acgt", ">Px", "gg"]));
}

#[test]
fn payload_uppercase_and_verbatim() {
    assert_eq!(transform_line("acgtNnx-*é", "P", true), Some("ACGTNNX-*é".to_string()));
    assert_eq!(transform_line("acgtNnx-*é", "P", false), Some("acgtNnx-*é".to_string()));
    assert_eq!(transform_line("", "P", true), Some(String::new()));
}

#[test]
fn concrete_scenario_default_pattern() {
    let mut args = base_args();
    args.uppercase = true;
    let prefix = file_prefix(&args, "GCF_002012065.1_ASM201206v1_genomic.fna").ok().unwrap();
    assert_eq!(prefix, "GCF_002012065.1#0#");
    let out = transform_lines(&lines(&[">NZ_CP1 some description", "acgtACGT"]), &prefix, true);
    assert_eq!(out, lines(&[">GCF_002012065.1#0#NZ_CP1", "ACGTACGT"]));
}

#[test]
fn prefix_from_base_name_only() {
    assert_eq!(
        extract_prefix_from_path("dir_x/sub_y/abc_def_ghi.fa", "[^_]+_[^_]+"),
        Ok("abc_def#0#".to_string())
    );
    assert_eq!(extract_prefix_from_path("dir_x/nounderscore.fa", "[^_]+_[^_]+"), Err(PrefixError::NoMatch));
    assert_eq!(extract_prefix_from_path("dir/", "[^_]+_[^_]+"), Err(PrefixError::NoMatch));
    assert_eq!(extract_prefix_from_path("d/a_b.fa/", "[^_]+_[^_]+"), Ok("a_b.fa#0#".to_string()));
    assert_eq!(extract_prefix_from_path("d/a_b/.", "[^_]+_[^_]+"), Ok("a_b#0#".to_string()));
    assert_eq!(extract_prefix_from_path(".", "[^_]+_[^_]+"), Err(PrefixError::InvalidPath));
    assert_eq!(extract_prefix_from_path("/", "[^_]+_[^_]+"), Err(PrefixError::InvalidPath));
    assert_eq!(extract_prefix_from_path("a/..", "[^_]+_[^_]+"), Err(PrefixError::InvalidPath));
    assert_eq!(extract_prefix_from_path("a_b.fa", "(unclosed"), Err(PrefixError::InvalidPattern));
}

#[test]
fn prefix_from_given_match() {
    assert_eq!(prefix_from_match(Some("GCF_1".to_string())), Ok("GCF_1#0#".to_string()));
    assert_eq!(prefix_from_match(None), Err(PrefixError::NoMatch));
}

#[test]
fn config_errors() {
    let args = base_args();
    assert_eq!(check_args_valid(&args, true), Err(ConfigError::NoInput));
    let mut a = base_args();
    a.input_stdin = Some("-".to_string());
    a.input_genome = Some(GENOME_A.to_string());
    assert_eq!(check_args_valid(&a, true), Err(ConfigError::StdinWithFiles));
    let mut b = base_args();
    b.input_stdin = Some("-".to_string());
    assert_eq!(check_args_valid(&b, true), Err(ConfigError::StdinWithoutPrefix));
    b.prefix = Some("S#0#".to_string());
    assert_eq!(check_args_valid(&b, true), Ok(()));
    let mut c = base_args();
    c.input_genome = Some(GENOME_A.to_string());
    c.merge_output = true;
    c.faidx = true;
    assert_eq!(check_args_valid(&c, false), Err(ConfigError::IndexUnavailable));
}

#[test]
fn stdin_goes_to_stdout() {
    let mut args = base_args();
    args.input_stdin = Some("-".to_string());
    args.prefix = Some("S#0#".to_string());
    let inputs = parse_files(&args.input_stdin, &None, &vec![], &vec![], &vec![]);
    assert_eq!(inputs, vec!["-".to_string()]);
    let job = plan_file(&args, "-").ok().unwrap();
    assert_eq!(job.output, None);
    assert_eq!(job.prefix, "S#0#");
}

#[test]
fn no_match_fails_per_file_and_drops_in_merge() {
    let args = base_args();
    assert_eq!(plan_file(&args, "dir/plain.fa").err(), Some(PrefixError::NoMatch));
    let recs = vec![SeqRecord { id: "r1 d".to_string(), seq: "ac".to_string() }];
    let tag = file_prefix(&args, "dir/plain.fa");
    assert!(merge_contribution(&tag, &recs, false).is_empty());
}

#[test]
fn sources_keep_order_and_duplicates() {
    let genome = Some(cand("g.fa", true, true));
    let files = vec![cand("a.fna.gz", true, true), cand("b.txt", true, true), cand("c.fasta", false, false)];
    let listed = vec![cand("g.fa", true, true), cand("gone.fa", false, false)];
    let dir = vec![cand("d/x.fa", true, true), cand("d/sub.fa", true, false)];
    let out = parse_files(&None, &genome, &files, &listed, &dir);
    assert_eq!(out, lines(&["g.fa", "a.fna.gz", "g.fa", "d/x.fa"]));
    let missing = Some(cand("none.fa", false, false));
    assert!(parse_files(&None, &missing, &vec![], &vec![], &vec![]).is_empty());
}

#[test]
fn fasta_and_gzip_names() {
    for n in ["a.fa", "a.fna", "a.fasta", "a.fa.gz", "a.fna.gz", "a.fasta.gz"] {
        assert!(is_fasta(n));
    }
    for n in ["a.fq", "a.gz", "a.fa.bz2", "fa", ""] {
        assert!(!is_fasta(n));
    }
    assert!(is_gzip("x.fa.gz"));
    assert!(!is_gzip("x.fa"));
    assert!(!is_gzip("gz"));
}

#[test]
fn output_paths() {
    assert_eq!(make_output_path("in/x.fa", "out", false), Some("out/x.fa".to_string()));
    assert_eq!(make_output_path("x.fa", "out/", true), Some("out/x.fa.gz".to_string()));
    assert_eq!(make_output_path("x.fa", "", false), Some("x.fa".to_string()));
    assert_eq!(make_output_path("in/", "out", false), Some("out/in".to_string()));
    assert_eq!(make_output_path("in/x.fa/.", "out", false), Some("out/x.fa".to_string()));
    assert_eq!(make_output_path("..", "out", false), None);
    assert_eq!(merge_output_path("out", "m.fa/", true), "out/m.gz");
    assert_eq!(merge_output_path("out", "m.fa", false), "out/m.fa");
    assert_eq!(merge_output_path("out", "m.tar.fa", true), "out/m.tar.gz");
    assert_eq!(merge_output_path("out", "merged", true), "out/merged.gz");
    assert_eq!(merge_output_path("out", ".hidden", true), "out/.hidden.gz");
}

#[test]
fn merge_record_matches_per_file_output() {
    let per_file = transform_lines(&lines(&[">r1 desc", "acg", "tta"]), "T#0#", true);
    let merged = format_record("T#0#", "r1 desc", "acg\ntta", true);
    assert_eq!(to_text(&per_file), merged);
    let no_id = transform_lines(&lines(&[">  ", "acg"]), "T", true);
    assert_eq!(to_text(&no_id), format_record("T", "  ", "acg", true));
    assert_eq!(format_record("T", "   ", "acg", true), "ACG\n");
}

#[test]
fn merge_keeps_payload_of_record_without_identifier() {
    let args = base_args();
    let recs = vec![
        SeqRecord { id: " ".to_string(), seq: "ac".to_string() },
        SeqRecord { id: "r2".to_string(), seq: "gg".to_string() },
    ];
    let tag = file_prefix(&args, "d/A_B.fa");
    let out = merge_contribution(&tag, &recs, true);
    assert_eq!(out, lines(&["AC\n", ">A_B.fa#0#r2\nGG\n"]));
}

#[test]
fn merge_counts_records_of_both_files() {
    let mut args = base_args();
    args.merge_output = true;
    let a = vec![
        SeqRecord { id: "a1".to_string(), seq: "ac".to_string() },
        SeqRecord { id: "a2 x".to_string(), seq: "gt".to_string() },
    ];
    let b = vec![SeqRecord { id: "b1".to_string(), seq: "tt".to_string() }];
    let ta = file_prefix(&args, GENOME_A);
    let tb = file_prefix(&args, GENOME_B);
    let ma = merge_contribution(&ta, &a, false);
    let mb = merge_contribution(&tb, &b, false);
    assert_eq!(ma.len() + mb.len(), 3);
    assert_eq!(ma[0], ">GCF_002012065.1#0#a1\nac\n");
    assert_eq!(ma[1], ">GCF_002012065.1#0#a2\ngt\n");
    assert_eq!(mb[0], ">GCF_006400955.1#0#b1\ntt\n");
    let mut c = base_args();
    c.input_directory = Some("tests/".to_string());
    c.merge_output = true;
    c.faidx = true;
    assert_eq!(check_args_valid(&c, false), Err(ConfigError::IndexUnavailable));
}

#[test]
fn compressed_output_round_trips() {
    let out = transform_lines(&lines(&[">s1 d", "acgt", ">s2", "nnAA"]), "P#0#", true);
    let plain = to_text(&out);
    let mut enc = flate2::write::GzEncoder::new(Vec::new(), flate2::Compression::default());
    enc.write_all(plain.as_bytes()).unwrap();
    let bytes = enc.finish().unwrap();
    assert_ne!(bytes, plain.as_bytes());
    let mut dec = flate2::read::MultiGzDecoder::new(&bytes[..]);
    let mut back = String::new();
    dec.read_to_string(&mut back).unwrap();
    assert_eq!(back, plain);
}
