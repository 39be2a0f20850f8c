//! Reading a rule string into include entries and exclude patterns.
//!
//! A rule string is a list of tokens held apart by a separator. A token that
//! begins with `!` names an exclude pattern, any other an include entry.
//! Whitespace round a token does not count, and a token of whitespace alone
//! names nothing.

use crate::error::PackError;
use vstd::prelude::*;

verus! {

/// Whether `c` is white space in the sense of Unicode's `White_Space` property.
pub open spec fn is_whitespace(c: char) -> bool {
    let n = c as u32;
    ||| 0x09 <= n <= 0x0d
    ||| n == 0x20
    ||| n == 0x85
    ||| n == 0xa0
    ||| n == 0x1680
    ||| 0x2000 <= n <= 0x200a
    ||| n == 0x2028
    ||| n == 0x2029
    ||| n == 0x202f
    ||| n == 0x205f
    ||| n == 0x3000
}

/// `text` without its leading white space.
pub open spec fn trim_start(text: Seq<char>) -> Seq<char>
    decreases text.len(),
{
    if text.len() > 0 && is_whitespace(text[0]) {
        trim_start(text.drop_first())
    } else {
        text
    }
}

/// `text` without its trailing white space.
pub open spec fn trim_end(text: Seq<char>) -> Seq<char>
    decreases text.len(),
{
    if text.len() > 0 && is_whitespace(text.last()) {
        trim_end(text.drop_last())
    } else {
        text
    }
}

/// `text` without the white space at either end.
pub open spec fn trim(text: Seq<char>) -> Seq<char> {
    trim_end(trim_start(text))
}

/// Whether `text` neither begins nor ends with white space.
pub open spec fn is_trimmed(text: Seq<char>) -> bool {
    text.len() == 0 || (!is_whitespace(text[0]) && !is_whitespace(text.last()))
}

/// Whether `separator` stands in `text` at position `at`.
pub open spec fn occurs_at(text: Seq<char>, separator: Seq<char>, at: int) -> bool {
    &&& 0 <= at
    &&& at + separator.len() <= text.len()
    &&& text.subrange(at, at + separator.len()) == separator
}

/// The pieces of `text` from `start` on, cut at each occurrence of a non-empty
/// `separator` found at or after `at`, leftmost first and never overlapping.
/// Nothing between `start` and `at` begins an occurrence.
pub open spec fn segments_from(
    text: Seq<char>,
    separator: Seq<char>,
    start: int,
    at: int,
) -> Seq<Seq<char>>
    decreases text.len() - at,
{
    if separator.len() == 0 || at < start || start < 0 || at + separator.len() > text.len() {
        seq![text.subrange(start, text.len() as int)]
    } else if occurs_at(text, separator, at) {
        seq![text.subrange(start, at)] + segments_from(
            text,
            separator,
            at + separator.len(),
            at + separator.len(),
        )
    } else {
        segments_from(text, separator, start, at + 1)
    }
}

/// The pieces that `separator` cuts `text` into. An empty separator stands
/// before, between and after all characters: it cuts out each character, with
/// an empty piece at either end.
pub open spec fn segments(text: Seq<char>, separator: Seq<char>) -> Seq<Seq<char>> {
    if separator.len() == 0 {
        seq![Seq::<char>::empty()] + Seq::new(text.len(), |i: int| seq![text[i]])
            + seq![Seq::<char>::empty()]
    } else {
        segments_from(text, separator, 0, 0)
    }
}

/// The include entry that a piece of a rule string names, if it names one.
pub open spec fn include_entry(segment: Seq<char>) -> Option<Seq<char>> {
    let token = trim(segment);
    if token.len() > 0 && token[0] != '!' {
        Some(token)
    } else {
        None
    }
}

/// The exclude pattern that a piece of a rule string names, if it names one:
/// what follows the one leading `!`, trimmed again, unless nothing is left.
pub open spec fn exclude_pattern(segment: Seq<char>) -> Option<Seq<char>> {
    let token = trim(segment);
    if token.len() > 0 && token[0] == '!' && trim(token.drop_first()).len() > 0 {
        Some(trim(token.drop_first()))
    } else {
        None
    }
}

/// The include entries that the pieces name, in the order of the pieces.
pub open spec fn includes_among(pieces: Seq<Seq<char>>) -> Seq<Seq<char>> {
    pieces.filter_map(|piece: Seq<char>| include_entry(piece))
}

/// The exclude patterns that the pieces name, in the order of the pieces.
pub open spec fn excludes_among(pieces: Seq<Seq<char>>) -> Seq<Seq<char>> {
    pieces.filter_map(|piece: Seq<char>| exclude_pattern(piece))
}

/// The include entries of a rule string.
pub open spec fn rule_includes(rule: Seq<char>, separator: Seq<char>) -> Seq<Seq<char>> {
    includes_among(segments(rule, separator))
}

/// The exclude patterns of a rule string.
pub open spec fn rule_excludes(rule: Seq<char>, separator: Seq<char>) -> Seq<Seq<char>> {
    excludes_among(segments(rule, separator))
}

/// The texts of a list of strings.
pub open spec fn texts(strings: Seq<String>) -> Seq<Seq<char>> {
    Seq::new(strings.len(), |i: int| strings[i]@)
}

/// Adding a piece at the end adds what it names at the end, and nothing else.
pub proof fn lemma_among_push(pieces: Seq<Seq<char>>, piece: Seq<char>)
    ensures
        includes_among(pieces.push(piece)) == match include_entry(piece) {
            Some(entry) => includes_among(pieces).push(entry),
            None => includes_among(pieces),
        },
        excludes_among(pieces.push(piece)) == match exclude_pattern(piece) {
            Some(pattern) => excludes_among(pieces).push(pattern),
            None => excludes_among(pieces),
        },
{
    let longer = pieces.push(piece);
    assert(longer.drop_last() =~= pieces);
    assert(longer.last() == piece);
    match include_entry(piece) {
        Some(entry) => {
            assert(includes_among(pieces) + seq![entry] =~= includes_among(pieces).push(entry));
        },
        None => {},
    }
    match exclude_pattern(piece) {
        Some(pattern) => {
            assert(excludes_among(pieces) + seq![pattern] =~= excludes_among(pieces).push(
                pattern,
            ));
        },
        None => {},
    }
}

/// Whether `text` can stand in a list that a rule string gives: it is not empty
/// and has no white space at either end.
pub open spec fn is_token(text: Seq<char>) -> bool {
    text.len() > 0 && is_trimmed(text)
}

/// Trimming at the front leaves an end piece of the text that does not begin
/// with white space.
pub proof fn lemma_trim_start_shape(text: Seq<char>)
    ensures
        trim_start(text).len() <= text.len(),
        trim_start(text) == text.skip(text.len() - trim_start(text).len()),
        trim_start(text).len() > 0 ==> !is_whitespace(trim_start(text)[0]),
    decreases text.len(),
{
    if text.len() > 0 && is_whitespace(text[0]) {
        let rest = text.drop_first();
        lemma_trim_start_shape(rest);
        assert(rest.skip(rest.len() - trim_start(rest).len()) =~= text.skip(
            text.len() - trim_start(rest).len(),
        ));
    } else {
        assert(text.skip(0) =~= text);
    }
}

/// Trimming at the back leaves a front piece of the text that does not end with
/// white space.
pub proof fn lemma_trim_end_shape(text: Seq<char>)
    ensures
        trim_end(text).len() <= text.len(),
        trim_end(text) == text.take(trim_end(text).len() as int),
        trim_end(text).len() > 0 ==> !is_whitespace(trim_end(text).last()),
    decreases text.len(),
{
    if text.len() > 0 && is_whitespace(text.last()) {
        let rest = text.drop_last();
        lemma_trim_end_shape(rest);
        assert(rest.take(trim_end(rest).len() as int) =~= text.take(trim_end(rest).len() as int));
    } else {
        assert(text.take(text.len() as int) =~= text);
    }
}

/// What trimming leaves has no white space at either end.
pub proof fn lemma_trim_is_trimmed(text: Seq<char>)
    ensures
        is_trimmed(trim(text)),
{
    let front = trim_start(text);
    lemma_trim_start_shape(text);
    lemma_trim_end_shape(front);
}

/// Trimming changes nothing in a text without white space at either end. With
/// `lemma_trim_is_trimmed`: trimming twice is trimming once.
pub proof fn lemma_trim_of_trimmed(text: Seq<char>)
    requires
        is_trimmed(text),
    ensures
        trim(text) == text,
{
}

/// Every include entry named by some pieces is a trimmed, non-empty text that
/// does not begin with `!`; every exclude pattern is a trimmed, non-empty text.
/// So trimming any of them again changes nothing, and a piece of white space
/// alone gives neither.
pub proof fn lemma_among_are_tokens(pieces: Seq<Seq<char>>)
    ensures
        forall|i: int|
            0 <= i < includes_among(pieces).len() ==> is_token(
                #[trigger] includes_among(pieces)[i],
            ) && includes_among(pieces)[i][0] != '!' && trim(includes_among(pieces)[i])
                == includes_among(pieces)[i],
        forall|i: int|
            0 <= i < excludes_among(pieces).len() ==> is_token(
                #[trigger] excludes_among(pieces)[i],
            ) && trim(excludes_among(pieces)[i]) == excludes_among(pieces)[i],
    decreases pieces.len(),
{
    if pieces.len() > 0 {
        let rest = pieces.drop_last();
        let piece = pieces.last();
        lemma_among_are_tokens(rest);
        assert(rest.push(piece) =~= pieces);
        lemma_among_push(rest, piece);
        lemma_trim_is_trimmed(piece);
        let token = trim(piece);
        if token.len() > 0 {
            lemma_trim_is_trimmed(token.drop_first());
        }
    }
}

/// The order of the pieces is the order of what they name: the entries and
/// patterns of pieces that come first come first.
pub proof fn lemma_among_keep_order(front: Seq<Seq<char>>, back: Seq<Seq<char>>)
    ensures
        includes_among(front + back) == includes_among(front) + includes_among(back),
        excludes_among(front + back) == excludes_among(front) + excludes_among(back),
    decreases back.len(),
{
    if back.len() == 0 {
        assert(front + back =~= front);
        assert(includes_among(front) + includes_among(back) =~= includes_among(front));
        assert(excludes_among(front) + excludes_among(back) =~= excludes_among(front));
    } else {
        let rest = back.drop_last();
        let piece = back.last();
        lemma_among_keep_order(front, rest);
        assert((front + rest).push(piece) =~= front + back);
        assert(rest.push(piece) =~= back);
        lemma_among_push(front + rest, piece);
        lemma_among_push(rest, piece);
        match include_entry(piece) {
            Some(entry) => {
                assert((includes_among(front) + includes_among(rest)).push(entry)
                    =~= includes_among(front) + includes_among(rest).push(entry));
            },
            None => {},
        }
        match exclude_pattern(piece) {
            Some(pattern) => {
                assert((excludes_among(front) + excludes_among(rest)).push(pattern)
                    =~= excludes_among(front) + excludes_among(rest).push(pattern));
            },
            None => {},
        }
    }
}

/// The characters of `text`, in order.
fn chars_of(text: &str) -> (chars: Vec<char>)
    ensures
        chars@ == text@,
{
    let mut chars: Vec<char> = Vec::new();
    for c in it: text.chars()
        invariant
            it.seq() == text@,
            chars@ == it.seq().take(it.index() as int),
    {
        chars.push(c);
    }
    chars
}

/// Tells whether `c` is white space.
pub fn is_space(c: char) -> (space: bool)
    ensures
        space == is_whitespace(c),
{
    let n: u32 = c as u32;
    (0x09 <= n && n <= 0x0d) || n == 0x20 || n == 0x85 || n == 0xa0 || n == 0x1680 || (0x2000 <= n
        && n <= 0x200a) || n == 0x2028 || n == 0x2029 || n == 0x202f || n == 0x205f || n == 0x3000
}

/// Finds the part of `text[from..to]` that trimming leaves.
fn trim_bounds(text: &Vec<char>, from: usize, to: usize) -> (bounds: (usize, usize))
    requires
        from <= to <= text.len(),
    ensures
        from <= bounds.0 <= bounds.1 <= to,
        text@.subrange(bounds.0 as int, bounds.1 as int) == trim(
            text@.subrange(from as int, to as int),
        ),
{
    let mut first: usize = from;
    while first < to && is_space(text[first])
        invariant
            from <= first <= to <= text.len(),
            trim_start(text@.subrange(from as int, to as int)) == trim_start(
                text@.subrange(first as int, to as int),
            ),
        decreases to - first,
    {
        assert(text@.subrange(first as int, to as int).drop_first() =~= text@.subrange(
            first + 1,
            to as int,
        ));
        first += 1;
    }
    let mut end: usize = to;
    while first < end && is_space(text[end - 1])
        invariant
            first <= end <= to <= text.len(),
            trim_end(text@.subrange(first as int, to as int)) == trim_end(
                text@.subrange(first as int, end as int),
            ),
        decreases end - first,
    {
        assert(text@.subrange(first as int, end as int).drop_last() =~= text@.subrange(
            first as int,
            end - 1,
        ));
        end -= 1;
    }
    (first, end)
}

/// Tells whether `separator` stands in `text` at `at`.
fn occurs(text: &Vec<char>, separator: &Vec<char>, at: usize) -> (found: bool)
    requires
        at + separator.len() <= text.len(),
    ensures
        found == occurs_at(text@, separator@, at as int),
{
    let mut k: usize = 0;
    while k < separator.len()
        invariant
            k <= separator.len(),
            at + separator.len() <= text.len(),
            forall|j: int| 0 <= j < k ==> text@[at + j] == separator@[j],
        decreases separator.len() - k,
    {
        if text[at + k] != separator[k] {
            assert(text@.subrange(at as int, at + separator.len())[k as int] != separator@[k as int]);
            return false;
        }
        k += 1;
    }
    assert(text@.subrange(at as int, at + separator.len()) =~= separator@);
    true
}

/// Copies the characters `from..to` of `rule` into a string of their own.
fn token_of(rule: &str, from: usize, to: usize) -> (token: String)
    requires
        from <= to <= rule@.len(),
    ensures
        token@ == rule@.subrange(from as int, to as int),
{
    rule.substring_char(from, to).to_owned()
}

/// Adds what the piece `from..to` of the rule string names to the list it
/// belongs to.
fn sort_piece(
    rule: &str,
    text: &Vec<char>,
    from: usize,
    to: usize,
    includes: &mut Vec<String>,
    excludes: &mut Vec<String>,
)
    requires
        text@ == rule@,
        from <= to <= text.len(),
    ensures
        texts(final(includes)@) == match include_entry(text@.subrange(from as int, to as int)) {
            Some(entry) => texts(old(includes)@).push(entry),
            None => texts(old(includes)@),
        },
        texts(final(excludes)@) == match exclude_pattern(text@.subrange(from as int, to as int)) {
            Some(pattern) => texts(old(excludes)@).push(pattern),
            None => texts(old(excludes)@),
        },
{
    let (first, end) = trim_bounds(text, from, to);
    let ghost token = text@.subrange(first as int, end as int);
    if first == end {
        return ;
    }
    assert(token[0] == text@[first as int]);
    if text[first] == '!' {
        assert(token.drop_first() =~= text@.subrange(first + 1, end as int));
        let (inner_first, inner_end) = trim_bounds(text, first + 1, end);
        if inner_first < inner_end {
            let pattern = token_of(rule, inner_first, inner_end);
            excludes.push(pattern);
            assert(texts(excludes@) =~= texts(old(excludes)@).push(pattern@));
        }
    } else {
        let entry = token_of(rule, first, end);
        includes.push(entry);
        assert(texts(includes@) =~= texts(old(includes)@).push(entry@));
    }
}

/// Reads a rule string: cuts it at each occurrence of `separator`, trims each
/// piece, and sorts the pieces that are left into include entries and, where a
/// piece begins with `!`, exclude patterns (without the `!`, trimmed again). The
/// order of the pieces is kept within each list. Every rule string is accepted.
pub fn parse_rule_string(rule_string: &str, separator: &str) -> (parsed: Result<
    (Vec<String>, Vec<String>),
    PackError,
>)
    ensures
        parsed is Ok,
        texts(parsed->Ok_0.0@) == rule_includes(rule_string@, separator@),
        texts(parsed->Ok_0.1@) == rule_excludes(rule_string@, separator@),
        forall|i: int|
            0 <= i < parsed->Ok_0.0@.len() ==> is_token(#[trigger] parsed->Ok_0.0@[i]@)
                && parsed->Ok_0.0@[i]@[0] != '!',
        forall|i: int| 0 <= i < parsed->Ok_0.1@.len() ==> is_token(#[trigger] parsed->Ok_0.1@[i]@),
{
    let text = chars_of(rule_string);
    let cut = chars_of(separator);
    let mut includes: Vec<String> = Vec::new();
    let mut excludes: Vec<String> = Vec::new();
    let ghost mut done: Seq<Seq<char>> = Seq::empty();
    assert(texts(includes@) =~= includes_among(done));
    assert(texts(excludes@) =~= excludes_among(done));
    if cut.len() == 0 {
        proof {
            lemma_among_push(done, Seq::<char>::empty());
            done = done.push(Seq::<char>::empty());
        }
        let mut i: usize = 0;
        while i < text.len()
            invariant
                i <= text.len(),
                text@ == rule_string@,
                done =~= seq![Seq::<char>::empty()] + Seq::new(i as nat, |j: int| seq![text@[j]]),
                texts(includes@) == includes_among(done),
                texts(excludes@) == excludes_among(done),
            decreases text.len() - i,
        {
            sort_piece(rule_string, &text, i, i + 1, &mut includes, &mut excludes);
            proof {
                assert(text@.subrange(i as int, i + 1) =~= seq![text@[i as int]]);
                lemma_among_push(done, seq![text@[i as int]]);
                done = done.push(seq![text@[i as int]]);
            }
            i += 1;
        }
        proof {
            lemma_among_push(done, Seq::<char>::empty());
            done = done.push(Seq::<char>::empty());
            assert(done =~= segments(text@, cut@));
        }
    } else {
        let mut start: usize = 0;
        let mut at: usize = 0;
        while cut.len() <= text.len() - at
            invariant
                start <= at <= text.len(),
                cut.len() > 0,
                text@ == rule_string@,
                segments(text@, cut@) == done + segments_from(
                    text@,
                    cut@,
                    start as int,
                    at as int,
                ),
                texts(includes@) == includes_among(done),
                texts(excludes@) == excludes_among(done),
            decreases text.len() - at,
        {
            if occurs(&text, &cut, at) {
                sort_piece(rule_string, &text, start, at, &mut includes, &mut excludes);
                proof {
                    let piece = text@.subrange(start as int, at as int);
                    lemma_among_push(done, piece);
                    assert(done.push(piece) + segments_from(
                        text@,
                        cut@,
                        at + cut.len(),
                        at + cut.len(),
                    ) =~= done + segments_from(text@, cut@, start as int, at as int));
                    done = done.push(piece);
                }
                at = at + cut.len();
                start = at;
            } else {
                at += 1;
            }
        }
        sort_piece(rule_string, &text, start, text.len(), &mut includes, &mut excludes);
        proof {
            let piece = text@.subrange(start as int, text.len() as int);
            lemma_among_push(done, piece);
            assert(done.push(piece) =~= done + segments_from(
                text@,
                cut@,
                start as int,
                at as int,
            ));
            done = done.push(piece);
        }
    }
    proof {
        lemma_among_are_tokens(segments(text@, cut@));
        assert forall|i: int| 0 <= i < includes@.len() implies is_token(#[trigger] includes@[i]@)
            && includes@[i]@[0] != '!' by {
            assert(texts(includes@)[i] == includes@[i]@);
        }
        assert forall|i: int| 0 <= i < excludes@.len() implies is_token(
            #[trigger] excludes@[i]@,
        ) by {
            assert(texts(excludes@)[i] == excludes@[i]@);
        }
    }
    Ok((includes, excludes))
}

/// Joins the lists a rule string gave with the lists given one by one: in each
/// result the rule's entries come first, then the others, all in their order and
/// none left out or added.
pub fn merge_rule_config(
    rule_extra: Vec<String>,
    rule_ignore: Vec<String>,
    cli_extra: Vec<String>,
    cli_ignore: Vec<String>,
) -> (merged: (Vec<String>, Vec<String>))
    ensures
        merged.0@ == rule_extra@ + cli_extra@,
        merged.1@ == rule_ignore@ + cli_ignore@,
{
    let mut extra_files = rule_extra;
    let mut ignore_patterns = rule_ignore;
    let mut more_files = cli_extra;
    let mut more_patterns = cli_ignore;
    extra_files.append(&mut more_files);
    ignore_patterns.append(&mut more_patterns);
    (extra_files, ignore_patterns)
}

} // verus!
