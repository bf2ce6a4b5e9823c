//! The two line formats of the data sources: normalized lines, and lexicon
//! entries of the form `word (TAG + TAG): description`.
use vstd::prelude::*;
use crate::text::{
    chars_of, find, find_in, split_on, split_range, string_from, strip_closing,
    strip_closing_end, trim, trim_range,
};

verus! {

/// The character sequences held by a vector of strings.
pub open spec fn strings_view(v: Seq<String>) -> Seq<Seq<char>> {
    v.map_values(|s: String| s@)
}

/// The token sequences of a list of structures.
pub open spec fn structures_view(v: Seq<Vec<String>>) -> Seq<Seq<Seq<char>>> {
    v.map_values(|s: Vec<String>| strings_view(s@))
}

/// A raw line with its `#` comment dropped and whitespace trimmed.
pub open spec fn clean_line(line: Seq<char>) -> Seq<char> {
    trim(line.take(find(line, '#')))
}

/// The normalized lines of a text: each line (as split at `\n`) cleaned of
/// its comment and surrounding whitespace, the empty ones left out.
///
/// A carriage return before `\n` is whitespace, and so trimmed away; the
/// empty piece after a final `\n` cleans to nothing, and so is left out.
pub open spec fn normalized_lines(data: Seq<char>) -> Seq<Seq<char>> {
    non_empty(split_on(data, '\n').map_values(|l: Seq<char>| clean_line(l)))
}

/// The non-empty lines among `lines`, in order.
pub open spec fn non_empty(lines: Seq<Seq<char>>) -> Seq<Seq<char>> {
    lines.filter(|l: Seq<char>| l.len() > 0)
}

proof fn lemma_non_empty_push(lines: Seq<Seq<char>>, l: Seq<char>)
    ensures
        non_empty(lines.push(l)) == if l.len() > 0 {
            non_empty(lines).push(l)
        } else {
            non_empty(lines)
        },
{
    reveal(Seq::filter);
    assert(lines.push(l).drop_last() == lines);
}

/// The word of a lexicon line: what stands before `(` and `:`, trimmed.
pub open spec fn line_word(line: Seq<char>) -> Seq<char> {
    let head = line.take(find(line, ':'));
    trim(head.take(find(head, '(')))
}

/// The tags of a lexicon line: what stands after `(` (and before `:`), its
/// closing spaces and parentheses stripped, split at `+` and trimmed; none
/// without `(`.
pub open spec fn line_tags(line: Seq<char>) -> Seq<Seq<char>> {
    let head = line.take(find(line, ':'));
    let p = find(head, '(');
    if p < head.len() {
        split_on(strip_closing(head.skip(p + 1)), '+').map_values(|t: Seq<char>| trim(t))
    } else {
        Seq::empty()
    }
}

/// The description of a lexicon line: what stands after the first `:`,
/// trimmed; none without `:`.
pub open spec fn line_description(line: Seq<char>) -> Option<Seq<char>> {
    let c = find(line, ':');
    if c < line.len() {
        Some(trim(line.skip(c + 1)))
    } else {
        None
    }
}

/// The slot tokens of a structure line: its pieces between `+`, trimmed.
pub open spec fn structure_tokens(line: Seq<char>) -> Seq<Seq<char>> {
    split_on(line, '+').map_values(|t: Seq<char>| trim(t))
}

/// The structures of a text: one per normalized line.
pub open spec fn structures_of(data: Seq<char>) -> Seq<Seq<Seq<char>>> {
    normalized_lines(data).map_values(|l: Seq<char>| structure_tokens(l))
}

/// The bounds of the cleaned form of the raw line `v[from..to]`.
fn clean_range(v: &Vec<char>, from: usize, to: usize) -> (r: (usize, usize))
    requires
        from <= to <= v.len(),
    ensures
        from <= r.0 <= r.1 <= to,
        v@.subrange(r.0 as int, r.1 as int) == clean_line(v@.subrange(from as int, to as int)),
{
    let h = find_in(v, from, to, '#');
    assert(v@.subrange(from as int, h as int) == v@.subrange(from as int, to as int).take(
        h - from,
    ));
    trim_range(v, from, h)
}

/// Parse a text made of lines: comments (from `#` to the end of the line)
/// are dropped, whitespace is trimmed and empty lines are left out.
pub fn parse_str(data: &str) -> (r: Vec<String>)
    ensures
        strings_view(r@) == normalized_lines(data@),
{
    let v = chars_of(data);
    let pieces = split_range(&v, 0, v.len(), '\n');
    let ghost raw = split_on(v@.subrange(0, v.len() as int), '\n');
    assert(v@.subrange(0, v.len() as int) == data@);
    let mut out: Vec<String> = Vec::new();
    let mut k: usize = 0;
    while k < pieces.len()
        invariant
            k <= pieces.len() == raw.len(),
            forall|j: int|
                0 <= j < pieces.len() ==> (#[trigger] pieces@[j]).0 <= pieces@[j].1 <= v.len()
                    && v@.subrange(pieces@[j].0 as int, pieces@[j].1 as int) == raw[j],
            strings_view(out@) == non_empty(
                raw.take(k as int).map_values(|l: Seq<char>| clean_line(l)),
            ),
        decreases pieces.len() - k,
    {
        let (from, to) = pieces[k];
        let (a, b) = clean_range(&v, from, to);
        let ghost before = raw.take(k as int).map_values(|l: Seq<char>| clean_line(l));
        assert(raw.take(k + 1).map_values(|l: Seq<char>| clean_line(l)) == before.push(
            clean_line(raw[k as int]),
        ));
        proof {
            lemma_non_empty_push(before, clean_line(raw[k as int]));
        }
        if a < b {
            let s = string_from(&v, a, b);
            out.push(s);
            assert(strings_view(out@) == strings_view(out@).drop_last().push(s@));
        }
        k = k + 1;
    }
    assert(raw.take(k as int) == raw);
    out
}

/// The trimmed pieces between `+` of `v[from..to]`.
fn split_tokens(v: &Vec<char>, from: usize, to: usize) -> (r: Vec<String>)
    requires
        from <= to <= v.len(),
    ensures
        strings_view(r@) == split_on(v@.subrange(from as int, to as int), '+').map_values(
            |t: Seq<char>| trim(t),
        ),
{
    let pieces = split_range(v, from, to, '+');
    let ghost raw = split_on(v@.subrange(from as int, to as int), '+');
    let mut out: Vec<String> = Vec::new();
    let mut k: usize = 0;
    while k < pieces.len()
        invariant
            k <= pieces.len() == raw.len(),
            forall|j: int|
                0 <= j < pieces.len() ==> (#[trigger] pieces@[j]).0 <= pieces@[j].1 <= v.len()
                    && v@.subrange(pieces@[j].0 as int, pieces@[j].1 as int) == raw[j],
            strings_view(out@) == raw.take(k as int).map_values(|t: Seq<char>| trim(t)),
        decreases pieces.len() - k,
    {
        let (a0, b0) = pieces[k];
        let (a, b) = trim_range(v, a0, b0);
        let s = string_from(v, a, b);
        out.push(s);
        assert(raw.take(k + 1).map_values(|t: Seq<char>| trim(t)) == raw.take(k as int).map_values(
            |t: Seq<char>| trim(t),
        ).push(trim(raw[k as int])));
        assert(strings_view(out@) == strings_view(out@).drop_last().push(s@));
        k = k + 1;
    }
    assert(raw.take(k as int) == raw);
    out
}

/// Parse a text of structures: each normalized line is split at `+` into
/// trimmed slot tokens.
pub fn parse_structures(data: &str) -> (r: Vec<Vec<String>>)
    ensures
        structures_view(r@) == structures_of(data@),
{
    let lines = parse_str(data);
    let ghost ls = normalized_lines(data@);
    let mut out: Vec<Vec<String>> = Vec::new();
    let mut k: usize = 0;
    while k < lines.len()
        invariant
            k <= lines.len(),
            strings_view(lines@) == ls,
            structures_view(out@) == ls.take(k as int).map_values(
                |l: Seq<char>| structure_tokens(l),
            ),
        decreases lines.len() - k,
    {
        let v = chars_of(lines[k].as_str());
        assert(v@.subrange(0, v.len() as int) == ls[k as int]);
        let tokens = split_tokens(&v, 0, v.len());
        let ghost before = out@;
        let ghost tv = strings_view(tokens@);
        out.push(tokens);
        assert(structures_view(out@) =~= structures_view(before).push(tv));
        assert(ls.take(k + 1).map_values(|l: Seq<char>| structure_tokens(l)) =~= ls.take(
            k as int,
        ).map_values(|l: Seq<char>| structure_tokens(l)).push(structure_tokens(ls[k as int])));
        k = k + 1;
    }
    assert(ls.take(k as int) == ls);
    out
}

/// Parse a line of the form `word (TAG + TAG): description`; the tags and the
/// description may be missing.
pub fn parse_word_line(line: &str) -> (r: (String, Vec<String>, Option<String>))
    ensures
        r.0@ == line_word(line@),
        strings_view(r.1@) == line_tags(line@),
        match r.2 {
            Some(d) => line_description(line@) == Some(d@),
            None => line_description(line@) is None,
        },
{
    let v = chars_of(line);
    let n = v.len();
    assert(v@.subrange(0, n as int) == line@);
    let c = find_in(&v, 0, n, ':');
    let description = if c < n {
        let (a, b) = trim_range(&v, c + 1, n);
        assert(v@.subrange(c + 1, n as int) == line@.skip(c + 1));
        Some(string_from(&v, a, b))
    } else {
        None
    };
    let ghost head = line@.take(c as int);
    assert(v@.subrange(0, c as int) == head);
    let p = find_in(&v, 0, c, '(');
    let mut tags: Vec<String> = Vec::new();
    if p < c {
        let e = strip_closing_end(&v, p + 1, c);
        assert(v@.subrange(p + 1, c as int) == head.skip(p + 1));
        let pieces = split_range(&v, p + 1, e, '+');
        let ghost raw = split_on(strip_closing(head.skip(p + 1)), '+');
        let mut k: usize = 0;
        while k < pieces.len()
            invariant
                k <= pieces.len() == raw.len(),
                forall|j: int|
                    0 <= j < pieces.len() ==> (#[trigger] pieces@[j]).0 <= pieces@[j].1 <= v.len()
                        && v@.subrange(pieces@[j].0 as int, pieces@[j].1 as int) == raw[j],
                strings_view(tags@) == raw.take(k as int).map_values(|t: Seq<char>| trim(t)),
            decreases pieces.len() - k,
        {
            let (from, to) = pieces[k];
            let (a, b) = trim_range(&v, from, to);
            let s = string_from(&v, a, b);
            tags.push(s);
            assert(raw.take(k + 1).map_values(|t: Seq<char>| trim(t)) == raw.take(k as int).map_values(
                |t: Seq<char>| trim(t),
            ).push(trim(raw[k as int])));
            assert(strings_view(tags@) == strings_view(tags@).drop_last().push(s@));
            k = k + 1;
        }
        assert(raw.take(k as int) == raw);
    } else {
        assert(strings_view(tags@) == Seq::<Seq<char>>::empty());
    }
    let (a, b) = trim_range(&v, 0, p);
    assert(v@.subrange(0, p as int) == head.take(p as int));
    (string_from(&v, a, b), tags, description)
}

} // verus!
