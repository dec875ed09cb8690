//! Reading raw samples from text: one sample per line, its elements written
//! as decimal numbers separated by commas, with optional whitespace around
//! each number.
use crate::source::{queued_samples, source_from_samples};
use crossbeam_queue::SegQueue;
use vstd::prelude::*;

verus! {

/// The lines of `s`, without their line endings.
pub uninterp spec fn lines_of(s: Seq<char>) -> Seq<Seq<char>>;

/// `s` without its leading and trailing whitespace.
pub uninterp spec fn trimmed(s: Seq<char>) -> Seq<char>;

/// The pieces of `s` between its commas: one more than there are commas.
pub open spec fn split_commas(s: Seq<char>) -> Seq<Seq<char>>
    decreases s.len(),
{
    if s.len() == 0 {
        seq![Seq::<char>::empty()]
    } else {
        let rest = split_commas(s.drop_first());
        if s[0] == ',' {
            seq![Seq::<char>::empty()] + rest
        } else {
            rest.update(0, seq![s[0]] + rest[0])
        }
    }
}

/// An ASCII decimal digit.
pub open spec fn is_digit(c: char) -> bool {
    '0' <= c <= '9'
}

/// The number written by the decimal digits `d`.
pub open spec fn digits_value(d: Seq<char>) -> nat
    decreases d.len(),
{
    if d.len() == 0 {
        0
    } else {
        10 * digits_value(d.drop_last()) + (d.last() as nat - '0' as nat) as nat
    }
}

/// `s` without a leading plus sign.
pub open spec fn unsigned_part(s: Seq<char>) -> Seq<char> {
    if s.len() > 0 && s[0] == '+' {
        s.drop_first()
    } else {
        s
    }
}

/// The unsigned 32-bit number written in `s`: an optional plus sign followed
/// by at least one decimal digit, and nothing else.
pub open spec fn decimal_u32(s: Seq<char>) -> Option<u32> {
    let d = unsigned_part(s);
    if d.len() > 0 && (forall|i: int| 0 <= i < d.len() ==> is_digit(#[trigger] d[i]))
        && digits_value(d) <= u32::MAX {
        Some(digits_value(d) as u32)
    } else {
        None
    }
}

/// The number held by one comma-separated field.
pub open spec fn field_value(field: Seq<char>) -> Option<u32> {
    decimal_u32(trimmed(field))
}

/// The numbers held by `fields`, or `None` when one of them holds none.
pub open spec fn fields_values(fields: Seq<Seq<char>>) -> Option<Seq<u32>>
    decreases fields.len(),
{
    if fields.len() == 0 {
        Some(seq![])
    } else {
        match (field_value(fields[0]), fields_values(fields.drop_first())) {
            (Some(v), Some(rest)) => Some(seq![v] + rest),
            _ => None,
        }
    }
}

/// The sample written on `line`, or `None` when a field is not a number.
pub open spec fn line_sample(line: Seq<char>) -> Option<Seq<u32>> {
    fields_values(split_commas(line))
}

/// The samples written on `lines`, in order, or `None` when one line holds
/// none.
pub open spec fn lines_samples(lines: Seq<Seq<char>>) -> Option<Seq<Seq<u32>>>
    decreases lines.len(),
{
    if lines.len() == 0 {
        Some(seq![])
    } else {
        match (line_sample(lines[0]), lines_samples(lines.drop_first())) {
            (Some(s), Some(rest)) => Some(seq![s] + rest),
            _ => None,
        }
    }
}

/// The samples written in `text`, one per line.
pub open spec fn text_samples(text: Seq<char>) -> Option<Seq<Seq<u32>>> {
    lines_samples(lines_of(text))
}

/// Relies on `str::lines`: the lines of the text, in order.
#[verifier::external_body]
fn split_lines<'a>(text: &'a str) -> (r: Vec<&'a str>)
    ensures
        r@.map_values(|l: &str| l@) == lines_of(text@),
{
    text.lines().collect()
}

/// Relies on `str::split` with a `char` pattern: the pieces between the
/// commas, in order.
#[verifier::external_body]
fn split_fields<'a>(line: &'a str) -> (r: Vec<&'a str>)
    ensures
        r@.map_values(|f: &str| f@) == split_commas(line@),
{
    line.split(',').collect()
}

/// Relies on `str::trim`: the text without leading and trailing whitespace.
#[verifier::external_body]
fn trim_field<'a>(field: &'a str) -> (r: &'a str)
    ensures
        r@ == trimmed(field@),
{
    field.trim()
}

/// Relies on `u32::from_str`: an optional `+` followed by decimal digits,
/// whose value fits, is a number; anything else is an error.
#[verifier::external_body]
fn read_u32(s: &str) -> (r: Option<u32>)
    ensures
        r == decimal_u32(s@),
{
    s.parse::<u32>().ok()
}

/// The number held by a field once its surrounding whitespace is removed.
pub fn parse_field(field: &str) -> (r: Option<u32>)
    ensures
        r == field_value(field@),
{
    read_u32(trim_field(field))
}

/// `front` followed by what `tail` holds, or `None` when `tail` is `None`.
spec fn prepend<T>(front: Seq<T>, tail: Option<Seq<T>>) -> Option<Seq<T>> {
    match tail {
        Some(t) => Some(front + t),
        None => None,
    }
}

/// The sample written on `line`: its comma-separated fields, each a decimal
/// number with optional whitespace around it; `None` when a field is not one.
pub fn parse_sample_line(line: &str) -> (r: Option<Vec<u32>>)
    ensures
        r is Some <==> line_sample(line@) is Some,
        r is Some ==> r->Some_0@ == line_sample(line@)->Some_0,
{
    let fields = split_fields(line);
    let ghost fs = fields@.map_values(|f: &str| f@);
    let mut values: Vec<u32> = Vec::new();
    let mut i: usize = 0;
    assert(fs.subrange(0, fs.len() as int) == fs);
    assert(values@ + fields_values(fs)->Some_0 == fields_values(fs)->Some_0);
    while i < fields.len()
        invariant
            i <= fields@.len() == fs.len(),
            fs == fields@.map_values(|f: &str| f@),
            fs == split_commas(line@),
            fields_values(fs) == prepend(values@, fields_values(fs.subrange(i as int, fs.len() as int))),
        decreases fields@.len() - i,
    {
        let ghost tail = fs.subrange(i as int, fs.len() as int);
        assert(tail.drop_first() =~= fs.subrange(i + 1, fs.len() as int));
        assert(tail[0] == fields@[i as int]@);
        match parse_field(fields[i]) {
            Some(v) => {
                proof {
                    if let Some(rest) = fields_values(tail.drop_first()) {
                        assert(values@.push(v) + rest =~= values@ + (seq![v] + rest));
                    }
                }
                values.push(v);
            },
            None => {
                return None;
            },
        }
        i = i + 1;
    }
    assert(fs.subrange(i as int, fs.len() as int) =~= Seq::<Seq<char>>::empty());
    assert(values@ + Seq::<u32>::empty() =~= values@);
    Some(values)
}

/// The samples written in `text`, one per line, in order; `None` when a line
/// holds a field that is not a number.
pub fn parse_samples(text: &str) -> (r: Option<Vec<Vec<u32>>>)
    ensures
        r is Some <==> text_samples(text@) is Some,
        r is Some ==> r->Some_0@.map_values(|v: Vec<u32>| v@) == text_samples(text@)->Some_0,
{
    let lines = split_lines(text);
    let ghost ls = lines@.map_values(|l: &str| l@);
    let mut samples: Vec<Vec<u32>> = Vec::new();
    let mut i: usize = 0;
    assert(ls.subrange(0, ls.len() as int) == ls);
    assert(samples@.map_values(|v: Vec<u32>| v@) =~= Seq::<Seq<u32>>::empty());
    assert(Seq::<Seq<u32>>::empty() + lines_samples(ls)->Some_0 == lines_samples(ls)->Some_0);
    while i < lines.len()
        invariant
            i <= lines@.len() == ls.len(),
            ls == lines@.map_values(|l: &str| l@),
            ls == lines_of(text@),
            lines_samples(ls) == prepend(
                samples@.map_values(|v: Vec<u32>| v@),
                lines_samples(ls.subrange(i as int, ls.len() as int)),
            ),
        decreases lines@.len() - i,
    {
        let ghost tail = ls.subrange(i as int, ls.len() as int);
        let ghost before = samples@.map_values(|v: Vec<u32>| v@);
        assert(tail.drop_first() =~= ls.subrange(i + 1, ls.len() as int));
        assert(tail[0] == lines@[i as int]@);
        match parse_sample_line(lines[i]) {
            Some(sample) => {
                let ghost sv = sample@;
                samples.push(sample);
                proof {
                    assert(samples@.map_values(|v: Vec<u32>| v@) =~= before.push(sv));
                    if let Some(rest) = lines_samples(tail.drop_first()) {
                        assert(before.push(sv) + rest =~= before + (seq![sv] + rest));
                    }
                }
            },
            None => {
                return None;
            },
        }
        i = i + 1;
    }
    assert(ls.subrange(i as int, ls.len() as int) =~= Seq::<Seq<char>>::empty());
    assert(samples@.map_values(|v: Vec<u32>| v@) + Seq::<Seq<u32>>::empty() =~= samples@.map_values(
        |v: Vec<u32>| v@,
    ));
    Some(samples)
}

/// A source pre-loaded with the samples written in `text`, one per line;
/// `None` when a line holds a field that is not a number.
pub fn queue_from_text(text: &str) -> (r: Option<SegQueue<Vec<u32>>>)
    ensures
        r is Some <==> text_samples(text@) is Some,
        r is Some ==> queued_samples(r->Some_0) == text_samples(text@)->Some_0,
{
    match parse_samples(text) {
        Some(samples) => Some(source_from_samples(samples.as_slice())),
        None => None,
    }
}

} // verus!
