use vstd::prelude::*;

verus! {

use vstd::string::StringSliceAdditionalSpecFns;

// The record stream of the external key-management tool is line-oriented
// text, one record per line, with colon-separated fields. The tokenizer
// works on the UTF-8 bytes of that text: the two separators are ASCII
// bytes, so byte-level splitting never cuts a multi-byte character.
/// The line separator `\n`.
pub const LINE_SEP: u8 = 10;

/// The field separator `:`.
pub const FIELD_SEP: u8 = 58;

/// The carriage return that may precede a line separator.
pub const CARRIAGE_RETURN: u8 = 13;

/// Splitting `s` on `sep`, with the piece under construction in `cur` and
/// the finished pieces in `acc`. Splitting always yields one more piece
/// than there are separators; an empty input yields one empty piece.
pub open spec fn spec_split_acc(s: Seq<u8>, sep: u8, cur: Seq<u8>, acc: Seq<Seq<u8>>) -> Seq<
    Seq<u8>,
>
    decreases s.len(),
{
    if s.len() == 0 {
        acc.push(cur)
    } else if s[0] == sep {
        spec_split_acc(s.drop_first(), sep, Seq::empty(), acc.push(cur))
    } else {
        spec_split_acc(s.drop_first(), sep, cur.push(s[0]), acc)
    }
}

/// The pieces of `s` between occurrences of `sep`, in order.
pub open spec fn spec_split(s: Seq<u8>, sep: u8) -> Seq<Seq<u8>> {
    spec_split_acc(s, sep, Seq::empty(), Seq::empty())
}

/// A line with a trailing carriage return removed, as the `lines` view of
/// text treats the sequence `\r\n` as one line break.
pub open spec fn spec_strip_cr(line: Seq<u8>) -> Seq<u8> {
    if line.len() > 0 && line.last() == CARRIAGE_RETURN {
        line.drop_last()
    } else {
        line
    }
}

/// The lines of `text`: pieces between `\n` bytes, without a final empty
/// piece when the text ends in a line break, and without trailing `\r`.
pub open spec fn spec_raw_lines(text: Seq<u8>) -> Seq<Seq<u8>> {
    let raw = spec_split(text, LINE_SEP);
    if raw.len() > 0 && raw.last().len() == 0 {
        raw.drop_last()
    } else {
        raw
    }
}

/// The fields of one line.
pub open spec fn spec_line_fields(line: Seq<u8>) -> Seq<Seq<u8>> {
    spec_split(spec_strip_cr(line), FIELD_SEP)
}

/// The whole record stream of `text`: one sequence of fields per line.
pub open spec fn spec_tokenize(text: Seq<u8>) -> Seq<Seq<Seq<u8>>> {
    spec_raw_lines(text).map_values(|line: Seq<u8>| spec_line_fields(line))
}

/// The deep view of a byte vector is its plain view.
pub proof fn lemma_bytes_deep_view(v: Vec<u8>)
    ensures
        v.deep_view() == v@,
{
    assert(v.deep_view() =~= v@);
}

/// Splits `bytes` on the separator `sep`.
pub fn split_bytes(bytes: &[u8], sep: u8) -> (r: Vec<Vec<u8>>)
    ensures
        r.deep_view() == spec_split(bytes@, sep),
{
    let mut acc: Vec<Vec<u8>> = Vec::new();
    let mut cur: Vec<u8> = Vec::new();
    let mut i: usize = 0;
    proof {
        assert(bytes@.skip(0) =~= bytes@);
        assert(acc.deep_view() =~= Seq::<Seq<u8>>::empty());
    }
    while i < bytes.len()
        invariant
            i <= bytes@.len(),
            spec_split(bytes@, sep) == spec_split_acc(
                bytes@.skip(i as int),
                sep,
                cur@,
                acc.deep_view(),
            ),
        decreases bytes@.len() - i,
    {
        let ghost prev_acc = acc.deep_view();
        let ghost prev_cur = cur@;
        let b: u8 = bytes[i];
        if b == sep {
            acc.push(cur);
            cur = Vec::new();
            proof {
                assert(acc.deep_view() =~~= prev_acc.push(prev_cur));
            }
        } else {
            cur.push(b);
        }
        i += 1;
        proof {
            assert(bytes@.skip(i - 1).drop_first() =~= bytes@.skip(i as int));
        }
    }
    proof {
        assert(bytes@.skip(i as int) =~= Seq::<u8>::empty());
    }
    let ghost prev_acc = acc.deep_view();
    let ghost prev_cur = cur@;
    acc.push(cur);
    proof {
        assert(acc.deep_view() =~~= prev_acc.push(prev_cur));
    }
    acc
}

/// Splits the text of the external tool's listing into records: one record
/// per line, each record the ordered sequence of its colon-separated
/// fields.
pub fn tokenize(text: &str) -> (r: Vec<Vec<Vec<u8>>>)
    ensures
        r.deep_view() == spec_tokenize(text.spec_bytes()),
{
    let mut raw: Vec<Vec<u8>> = split_bytes(text.as_bytes(), LINE_SEP);
    let ghost lines = spec_raw_lines(text.spec_bytes());
    if raw.len() > 0 && raw[raw.len() - 1].len() == 0 {
        let ghost prev = raw.deep_view();
        raw.pop();
        proof {
            assert(raw.deep_view() =~= prev.drop_last());
            assert(raw.deep_view() =~= lines);
        }
    } else {
        proof {
            assert(raw.deep_view() =~= lines);
        }
    }
    let mut out: Vec<Vec<Vec<u8>>> = Vec::new();
    let mut k: usize = 0;
    proof {
        assert(out.deep_view() =~= spec_tokenize(text.spec_bytes()).take(0));
    }
    while k < raw.len()
        invariant
            k <= raw@.len(),
            out@.len() == k,
            raw.deep_view() == lines,
            out.deep_view() == spec_tokenize(text.spec_bytes()).take(k as int),
            spec_tokenize(text.spec_bytes()) == lines.map_values(
                |line: Seq<u8>| spec_line_fields(line),
            ),
        decreases raw@.len() - k,
    {
        let mut line: Vec<u8> = clone_field(&raw[k]);
        if line.len() > 0 && line[line.len() - 1] == CARRIAGE_RETURN {
            line.pop();
        }
        proof {
            assert(line@ == spec_strip_cr(lines[k as int]));
        }
        let fields: Vec<Vec<u8>> = split_bytes(line.as_slice(), FIELD_SEP);
        out.push(fields);
        k += 1;
        proof {
            assert(spec_tokenize(text.spec_bytes())[k - 1] == spec_line_fields(lines[k - 1]));
            assert(out.deep_view() =~= spec_tokenize(text.spec_bytes()).take(k as int));
        }
    }
    proof {
        assert(spec_tokenize(text.spec_bytes()).take(raw@.len() as int) =~= spec_tokenize(
            text.spec_bytes(),
        ));
    }
    out
}

/// Copies one field, byte for byte.
pub fn clone_field(f: &Vec<u8>) -> (c: Vec<u8>)
    ensures
        c@ == f@,
{
    let mut c: Vec<u8> = Vec::new();
    let mut i: usize = 0;
    while i < f.len()
        invariant
            i <= f@.len(),
            c@ == f@.take(i as int),
        decreases f@.len() - i,
    {
        c.push(f[i]);
        i += 1;
        proof {
            assert(f@.take(i as int) =~= f@.take(i - 1).push(f@[i - 1]));
        }
    }
    proof {
        assert(f@.take(i as int) =~= f@);
    }
    c
}

/// Copies one record, field for field.
pub fn clone_record(r: &Vec<Vec<u8>>) -> (c: Vec<Vec<u8>>)
    ensures
        c.deep_view() == r.deep_view(),
{
    let mut c: Vec<Vec<u8>> = Vec::new();
    let mut i: usize = 0;
    while i < r.len()
        invariant
            i <= r@.len(),
            c@.len() == i,
            c.deep_view() == r.deep_view().take(i as int),
        decreases r@.len() - i,
    {
        let ghost prev = c.deep_view();
        c.push(clone_field(&r[i]));
        i += 1;
        proof {
            lemma_bytes_deep_view(r@[i - 1]);
            lemma_bytes_deep_view(c@[i - 1]);
            assert(c.deep_view() =~= r.deep_view().take(i as int));
        }
    }
    proof {
        assert(r.deep_view().take(i as int) =~= r.deep_view());
    }
    c
}

} // verus!
