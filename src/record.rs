use vstd::prelude::*;

use crate::text::{
    ascii_upper, chars_of, copy_range, first_token, first_token_of, push_chars, string_of,
    upper_chars,
    upper_seq,
};

verus! {

/// A line that opens a record: it starts with `>`.
pub open spec fn is_header(line: Seq<char>) -> bool {
    line.len() > 0 && line[0] == '>'
}

/// The rewritten header for a record whose header text (after `>`) is `id_text`:
/// `>` + prefix + the first token, or nothing when there is no token.
pub open spec fn header_out(prefix: Seq<char>, id_text: Seq<char>) -> Option<Seq<char>> {
    match first_token(id_text) {
        Some(t) => Some(seq!['>'] + prefix + t),
        None => None,
    }
}

/// A payload line as written: case-folded when `uppercase` is set, else verbatim.
pub open spec fn payload_out(line: Seq<char>, uppercase: bool) -> Seq<char> {
    if uppercase {
        upper_seq(line)
    } else {
        line
    }
}

/// What one input line becomes in the output (without its line terminator).
pub open spec fn line_out(line: Seq<char>, prefix: Seq<char>, uppercase: bool) -> Option<
    Seq<char>,
> {
    if is_header(line) {
        header_out(prefix, line.drop_first())
    } else {
        Some(payload_out(line, uppercase))
    }
}

/// The output lines of a whole input: each line transformed, dropped headers left out.
pub open spec fn text_out(lines: Seq<Seq<char>>, prefix: Seq<char>, uppercase: bool) -> Seq<
    Seq<char>,
>
    decreases lines.len(),
{
    if lines.len() == 0 {
        Seq::empty()
    } else {
        let before = text_out(lines.drop_last(), prefix, uppercase);
        match line_out(lines.last(), prefix, uppercase) {
            Some(o) => before.push(o),
            None => before,
        }
    }
}

/// Lines written out, each followed by a newline.
pub open spec fn lines_text(lines: Seq<Seq<char>>) -> Seq<char>
    decreases lines.len(),
{
    if lines.len() == 0 {
        Seq::empty()
    } else {
        lines_text(lines.drop_last()) + lines.last() + seq!['\n']
    }
}

/// Lines joined by newlines, with no newline after the last one.
pub open spec fn join_lines(lines: Seq<Seq<char>>) -> Seq<char>
    decreases lines.len(),
{
    if lines.len() <= 1 {
        if lines.len() == 1 {
            lines[0]
        } else {
            Seq::empty()
        }
    } else {
        join_lines(lines.drop_last()) + seq!['\n'] + lines.last()
    }
}

/// One record as the merged output holds it: the rewritten header and a
/// newline (left out when the header has no identifier), then the payload
/// (case-folded when asked) and a newline.
pub open spec fn record_text(
    prefix: Seq<char>,
    id_text: Seq<char>,
    payload: Seq<char>,
    uppercase: bool,
) -> Seq<char> {
    match header_out(prefix, id_text) {
        Some(h) => h + seq!['\n'] + payload_out(payload, uppercase) + seq!['\n'],
        None => payload_out(payload, uppercase) + seq!['\n'],
    }
}

/// The header lines of a record's output: the rewritten header, or none.
pub open spec fn header_lines(prefix: Seq<char>, id_text: Seq<char>) -> Seq<Seq<char>> {
    match header_out(prefix, id_text) {
        Some(h) => seq![h],
        None => Seq::empty(),
    }
}

/// Payload lines pass through in order and one for one: each is case-folded
/// when `uppercase` is set, and kept exactly as it is otherwise.
pub proof fn lemma_payload_lines_out(lines: Seq<Seq<char>>, prefix: Seq<char>, uppercase: bool)
    requires
        forall|i: int| 0 <= i < lines.len() ==> !is_header(#[trigger] lines[i]),
    ensures
        text_out(lines, prefix, uppercase) == lines.map_values(
            |l: Seq<char>| payload_out(l, uppercase),
        ),
        !uppercase ==> text_out(lines, prefix, uppercase) == lines,
    decreases lines.len(),
{
    if lines.len() == 0 {
        assert(lines.map_values(|l: Seq<char>| payload_out(l, uppercase)) =~= Seq::<
            Seq<char>,
        >::empty());
    } else {
        lemma_payload_lines_out(lines.drop_last(), prefix, uppercase);
        assert(!is_header(lines[lines.len() - 1]));
        assert(lines.map_values(|l: Seq<char>| payload_out(l, uppercase)) =~= lines.drop_last().map_values(
            |l: Seq<char>| payload_out(l, uppercase),
        ).push(payload_out(lines.last(), uppercase)));
    }
    if !uppercase {
        assert(lines.map_values(|l: Seq<char>| payload_out(l, uppercase)) =~= lines);
    }
}

proof fn lemma_payload_out_concat(a: Seq<char>, b: Seq<char>, uppercase: bool)
    ensures
        payload_out(a + b, uppercase) == payload_out(a, uppercase) + payload_out(b, uppercase),
{
    if uppercase {
        assert(upper_seq(a + b) =~= upper_seq(a) + upper_seq(b));
    }
}

proof fn lemma_text_out_payloads(
    id_text: Seq<char>,
    lines: Seq<Seq<char>>,
    prefix: Seq<char>,
    uppercase: bool,
)
    requires
        forall|i: int| 0 <= i < lines.len() ==> !is_header(#[trigger] lines[i]),
    ensures
        text_out(seq![seq!['>'] + id_text] + lines, prefix, uppercase) == header_lines(
            prefix,
            id_text,
        ) + lines.map_values(|l: Seq<char>| payload_out(l, uppercase)),
    decreases lines.len(),
{
    let h_line = seq!['>'] + id_text;
    assert(h_line.drop_first() =~= id_text);
    let all = seq![h_line] + lines;
    if lines.len() == 0 {
        assert(all.drop_last() =~= Seq::<Seq<char>>::empty());
        assert(all.last() == h_line);
        assert(text_out(all.drop_last(), prefix, uppercase) =~= Seq::<Seq<char>>::empty());
        assert(lines.map_values(|l: Seq<char>| payload_out(l, uppercase)) =~= Seq::<
            Seq<char>,
        >::empty());
        assert(text_out(all, prefix, uppercase) =~= header_lines(prefix, id_text) + lines.map_values(
            |l: Seq<char>| payload_out(l, uppercase),
        ));
    } else {
        lemma_text_out_payloads(id_text, lines.drop_last(), prefix, uppercase);
        assert(all.drop_last() =~= seq![h_line] + lines.drop_last());
        assert(all.last() == lines.last());
        assert(!is_header(lines[lines.len() - 1]));
        assert(lines.map_values(|l: Seq<char>| payload_out(l, uppercase)) =~= lines.drop_last().map_values(
            |l: Seq<char>| payload_out(l, uppercase),
        ).push(payload_out(lines.last(), uppercase)));
        assert(text_out(all, prefix, uppercase) =~= header_lines(prefix, id_text) + lines.map_values(
            |l: Seq<char>| payload_out(l, uppercase),
        ));
    }
}

proof fn lemma_lines_text_cons(h: Seq<char>, rest: Seq<Seq<char>>)
    ensures
        lines_text(seq![h] + rest) == h + seq!['\n'] + lines_text(rest),
    decreases rest.len(),
{
    let all = seq![h] + rest;
    if rest.len() == 0 {
        assert(all.drop_last() =~= Seq::<Seq<char>>::empty());
        assert(lines_text(Seq::<Seq<char>>::empty()) == Seq::<char>::empty());
        assert(lines_text(all) =~= h + seq!['\n'] + lines_text(rest));
    } else {
        lemma_lines_text_cons(h, rest.drop_last());
        assert(all.drop_last() =~= seq![h] + rest.drop_last());
        assert(all.last() == rest.last());
        assert(lines_text(all) =~= h + seq!['\n'] + lines_text(rest));
    }
}

proof fn lemma_join_payload(lines: Seq<Seq<char>>, uppercase: bool)
    requires
        lines.len() >= 1,
    ensures
        payload_out(join_lines(lines), uppercase) + seq!['\n'] == lines_text(
            lines.map_values(|l: Seq<char>| payload_out(l, uppercase)),
        ),
    decreases lines.len(),
{
    let m = lines.map_values(|l: Seq<char>| payload_out(l, uppercase));
    if lines.len() == 1 {
        assert(m.drop_last() =~= Seq::<Seq<char>>::empty());
        assert(lines_text(m.drop_last()) =~= Seq::<char>::empty());
        assert(m.last() == payload_out(lines[0], uppercase));
        assert(join_lines(lines) == lines[0]);
        assert(lines_text(m) =~= payload_out(lines[0], uppercase) + seq!['\n']);
    } else {
        let init = lines.drop_last();
        lemma_join_payload(init, uppercase);
        lemma_payload_out_concat(join_lines(init) + seq!['\n'], lines.last(), uppercase);
        lemma_payload_out_concat(join_lines(init), seq!['\n'], uppercase);
        assert(payload_out(seq!['\n'], uppercase) =~= seq!['\n']);
        assert(m.drop_last() =~= init.map_values(|l: Seq<char>| payload_out(l, uppercase)));
        assert(payload_out(join_lines(lines), uppercase) + seq!['\n'] =~= lines_text(m));
    }
}

/// Transforming two pieces of input one after the other gives the two outputs
/// one after the other.
pub proof fn lemma_text_out_append(
    a: Seq<Seq<char>>,
    b: Seq<Seq<char>>,
    prefix: Seq<char>,
    uppercase: bool,
)
    ensures
        text_out(a + b, prefix, uppercase) == text_out(a, prefix, uppercase) + text_out(
            b,
            prefix,
            uppercase,
        ),
    decreases b.len(),
{
    if b.len() == 0 {
        assert(a + b =~= a);
        assert(text_out(a, prefix, uppercase) + text_out(b, prefix, uppercase) =~= text_out(
            a,
            prefix,
            uppercase,
        ));
    } else {
        lemma_text_out_append(a, b.drop_last(), prefix, uppercase);
        assert((a + b).drop_last() =~= a + b.drop_last());
        assert((a + b).last() == b.last());
        match line_out(b.last(), prefix, uppercase) {
            Some(o) => {
                assert(text_out(a + b, prefix, uppercase) =~= text_out(a, prefix, uppercase)
                    + text_out(b, prefix, uppercase));
            },
            None => {},
        }
    }
}

/// Writing two groups of lines gives the two texts one after the other.
pub proof fn lemma_lines_text_append(a: Seq<Seq<char>>, b: Seq<Seq<char>>)
    ensures
        lines_text(a + b) == lines_text(a) + lines_text(b),
    decreases b.len(),
{
    if b.len() == 0 {
        assert(a + b =~= a);
        assert(lines_text(a) + lines_text(b) =~= lines_text(a));
    } else {
        lemma_lines_text_append(a, b.drop_last());
        assert((a + b).drop_last() =~= a + b.drop_last());
        assert((a + b).last() == b.last());
        assert(lines_text(a + b) =~= lines_text(a) + lines_text(b));
    }
}

/// A record written to the merged output is exactly the text that per-file mode
/// writes for the same record: its header line (none when the header has no
/// identifier), then each of its payload lines, each line ended by a newline.
/// Here the record's header line is `>` + `id_text` and its payload is the lines
/// `payload_lines`, joined by newlines as a parser hands them out.
pub proof fn lemma_merged_record_matches_per_file(
    prefix: Seq<char>,
    id_text: Seq<char>,
    payload_lines: Seq<Seq<char>>,
    uppercase: bool,
)
    requires
        payload_lines.len() >= 1,
        forall|i: int| 0 <= i < payload_lines.len() ==> !is_header(#[trigger] payload_lines[i]),
    ensures
        record_text(prefix, id_text, join_lines(payload_lines), uppercase) == lines_text(
            text_out(seq![seq!['>'] + id_text] + payload_lines, prefix, uppercase),
        ),
{
    let m = payload_lines.map_values(|l: Seq<char>| payload_out(l, uppercase));
    lemma_text_out_payloads(id_text, payload_lines, prefix, uppercase);
    lemma_join_payload(payload_lines, uppercase);
    match header_out(prefix, id_text) {
        Some(h) => {
            lemma_lines_text_cons(h, m);
            assert(header_lines(prefix, id_text) == seq![h]);
            assert(h + seq!['\n'] + payload_out(join_lines(payload_lines), uppercase) + seq!['\n']
                =~= h + seq!['\n'] + lines_text(m));
        },
        None => {
            assert(header_lines(prefix, id_text) + m =~= m);
        },
    }
}

fn header_chars(prefix: &[char], id_text: &[char]) -> (r: Option<Vec<char>>)
    ensures
        match header_out(prefix@, id_text@) {
            Some(h) => r is Some && r->0@ == h,
            None => r is None,
        },
{
    match first_token_of(id_text) {
        Some(t) => {
            let mut out: Vec<char> = vec!['>'];
            push_chars(&mut out, prefix);
            push_chars(&mut out, t.as_slice());
            assert(out@ =~= seq!['>'] + prefix@ + t@);
            Some(out)
        },
        None => None,
    }
}

/// Transforms one line of an input file: a header line `>` + text becomes
/// `>` + `prefix` + the first whitespace-delimited token of the text (`None` when
/// the text has no token); any other line is payload, returned as it is, or with
/// ASCII letters in uppercase when `uppercase` is set.
pub fn transform_line(line: &str, prefix: &str, uppercase: bool) -> (r: Option<String>)
    ensures
        match line_out(line@, prefix@, uppercase) {
            Some(o) => r is Some && r->0@ == o,
            None => r is None,
        },
        // a header keeps the first token of its text as the identifier
        is_header(line@) && first_token(line@.drop_first()) is Some ==> r is Some && r->0@
            == seq!['>'] + prefix@ + first_token(line@.drop_first())->0,
        // a payload line keeps its length, and each character is kept or case-folded
        !is_header(line@) ==> r is Some && r->0@.len() == line@.len() && forall|k: int|
            0 <= k < line@.len() ==> r->0@[k] == (if uppercase {
                ascii_upper(#[trigger] line@[k])
            } else {
                line@[k]
            }),
{
    let cs = chars_of(line);
    let p = chars_of(prefix);
    if cs.len() > 0 && cs[0] == '>' {
        let rest = copy_range(cs.as_slice(), 1, cs.len());
        assert(rest@ =~= line@.drop_first());
        match header_chars(p.as_slice(), rest.as_slice()) {
            Some(h) => Some(string_of(h.as_slice())),
            None => None,
        }
    } else if uppercase {
        let u = upper_chars(cs.as_slice());
        Some(string_of(u.as_slice()))
    } else {
        Some(string_of(cs.as_slice()))
    }
}

/// Transforms every line of an input, in order, leaving out the header lines
/// that carry no identifier.
pub fn transform_lines(lines: &Vec<String>, prefix: &str, uppercase: bool) -> (r: Vec<String>)
    ensures
        r@.map_values(|s: String| s@) == text_out(
            lines@.map_values(|s: String| s@),
            prefix@,
            uppercase,
        ),
{
    let ghost input = lines@.map_values(|s: String| s@);
    let mut r: Vec<String> = Vec::new();
    let mut k: usize = 0;
    while k < lines.len()
        invariant
            0 <= k <= lines@.len(),
            input == lines@.map_values(|s: String| s@),
            r@.map_values(|s: String| s@) == text_out(input.subrange(0, k as int), prefix@, uppercase),
        decreases lines@.len() - k,
    {
        let out = transform_line(lines[k].as_str(), prefix, uppercase);
        assert(input.subrange(0, k + 1).drop_last() =~= input.subrange(0, k as int));
        match out {
            Some(o) => {
                r.push(o);
                assert(r@.map_values(|s: String| s@) =~= text_out(
                    input.subrange(0, k as int),
                    prefix@,
                    uppercase,
                ).push(o@));
            },
            None => {},
        }
        k = k + 1;
    }
    assert(input.subrange(0, lines@.len() as int) =~= input);
    r
}

/// Formats one parsed record for the merged output: `>` + `prefix` + the first
/// token of the header text `id_text` and a newline (left out when the header
/// text has no token), then the payload (ASCII letters in uppercase when
/// `uppercase` is set) and a newline.
pub fn format_record(prefix: &str, id_text: &str, payload: &str, uppercase: bool) -> (r: String)
    ensures
        r@ == record_text(prefix@, id_text@, payload@, uppercase),
{
    let p = chars_of(prefix);
    let id = chars_of(id_text);
    let body = chars_of(payload);
    let mut out: Vec<char> = match header_chars(p.as_slice(), id.as_slice()) {
        Some(h) => {
            let mut v = h;
            v.push('\n');
            v
        },
        None => Vec::new(),
    };
    let ghost head = out@;
    if uppercase {
        let u = upper_chars(body.as_slice());
        push_chars(&mut out, u.as_slice());
    } else {
        push_chars(&mut out, body.as_slice());
    }
    out.push('\n');
    assert(out@ =~= head + payload_out(payload@, uppercase) + seq!['\n']);
    string_of(out.as_slice())
}

} // verus!
