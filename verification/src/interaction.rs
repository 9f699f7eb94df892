//! Helpers for text frontends: reading index lists typed by a learner, and drawing rules.
use vstd::prelude::*;
use vstd::string::*;
use crate::text::is_white_space;

verus! {

/// Whether `c` separates the indices a learner types: a comma, a space or a semicolon.
pub open spec fn is_index_separator(c: char) -> bool {
    c == ',' || c == ' ' || c == ';'
}

/// The pieces of `s` between separators, as `str::split` yields them (empty pieces included).
pub open spec fn pieces(s: Seq<char>) -> Seq<Seq<char>>
    decreases s.len(),
{
    if s.len() == 0 {
        seq![Seq::empty()]
    } else {
        let before = pieces(s.drop_last());
        if is_index_separator(s.last()) {
            before.push(Seq::empty())
        } else {
            before.update(before.len() - 1, before.last().push(s.last()))
        }
    }
}

proof fn lemma_pieces_not_empty(s: Seq<char>)
    ensures
        pieces(s).len() >= 1,
    decreases s.len(),
{
    if s.len() > 0 {
        lemma_pieces_not_empty(s.drop_last());
    }
}

/// `t` without leading white space.
pub open spec fn trim_start(t: Seq<char>) -> Seq<char>
    decreases t.len(),
{
    if t.len() > 0 && is_white_space(t[0]) {
        trim_start(t.drop_first())
    } else {
        t
    }
}

/// `t` without trailing white space.
pub open spec fn trim_end(t: Seq<char>) -> Seq<char>
    decreases t.len(),
{
    if t.len() > 0 && is_white_space(t.last()) {
        trim_end(t.drop_last())
    } else {
        t
    }
}

/// `t` without leading and trailing white space, as `str::trim` gives it.
pub open spec fn trim(t: Seq<char>) -> Seq<char> {
    trim_end(trim_start(t))
}

pub open spec fn is_ascii_digit(c: char) -> bool {
    '0' <= c && c <= '9'
}

/// The number that a string of ASCII digits spells in decimal.
pub open spec fn digits_value(d: Seq<char>) -> nat
    decreases d.len(),
{
    if d.len() == 0 {
        0
    } else {
        digits_value(d.drop_last()) * 10 + ((d.last() as u32) - 48) as nat
    }
}

/// The `usize` that `str::parse` reads from `t`: an optional `+` and then one or more ASCII
/// digits whose value fits.
pub open spec fn parsed_index(t: Seq<char>) -> Option<usize> {
    let d = unsigned_digits(t);
    if d.len() > 0 && all_ascii_digits(d) && digits_value(d) <= usize::MAX {
        Some(digits_value(d) as usize)
    } else {
        None
    }
}

/// `t` without the `+` sign it may begin with.
pub open spec fn unsigned_digits(t: Seq<char>) -> Seq<char> {
    if t.len() > 0 && t[0] == '+' {
        t.drop_first()
    } else {
        t
    }
}

pub open spec fn all_ascii_digits(d: Seq<char>) -> bool {
    forall|i: int| 0 <= i < d.len() ==> is_ascii_digit(#[trigger] d[i])
}

/// The indices read from the first `n` pieces, skipping those that do not parse.
pub open spec fn indices_of_pieces(ps: Seq<Seq<char>>, n: nat) -> Seq<usize>
    decreases n,
{
    if n == 0 {
        Seq::empty()
    } else {
        indices_of_pieces(ps, (n - 1) as nat) + match parsed_index(trim(ps[n - 1])) {
            Some(v) => seq![v],
            None => Seq::empty(),
        }
    }
}

/// The indices in a line typed by a learner.
pub open spec fn typed_indices(input: Seq<char>) -> Seq<usize> {
    indices_of_pieces(pieces(input), pieces(input).len())
}

proof fn lemma_trim_start_skips(t: Seq<char>, i: int)
    requires
        0 <= i <= t.len(),
        forall|j: int| 0 <= j < i ==> is_white_space(#[trigger] t[j]),
        i == t.len() || !is_white_space(t[i]),
    ensures
        trim_start(t) == t.subrange(i, t.len() as int),
    decreases i,
{
    if i > 0 {
        assert(is_white_space(t[0]));
        lemma_trim_start_skips(t.drop_first(), i - 1);
        assert(t.drop_first().subrange(i - 1, t.drop_first().len() as int) =~= t.subrange(
            i,
            t.len() as int,
        ));
    } else {
        assert(t.subrange(0, t.len() as int) =~= t);
    }
}

proof fn lemma_trim_end_skips(t: Seq<char>, k: int)
    requires
        0 <= k <= t.len(),
        forall|j: int| k <= j < t.len() ==> is_white_space(#[trigger] t[j]),
        k == 0 || !is_white_space(t[k - 1]),
    ensures
        trim_end(t) == t.subrange(0, k),
    decreases t.len() - k,
{
    if k < t.len() {
        assert(is_white_space(t.last()));
        assert(t.drop_last().len() == t.len() - 1);
        assert forall|j: int| k <= j < t.drop_last().len() implies is_white_space(
            #[trigger] t.drop_last()[j],
        ) by {
            assert(t.drop_last()[j] == t[j]);
        }
        if k > 0 {
            assert(t.drop_last()[k - 1] == t[k - 1]);
        }
        lemma_trim_end_skips(t.drop_last(), k);
        assert(t.drop_last().subrange(0, k) =~= t.subrange(0, k));
    } else {
        assert(t.subrange(0, k) =~= t);
    }
}

/// The trimmed part of `t`, as characters.
fn trimmed(t: &Vec<char>) -> (r: Vec<char>)
    ensures
        r@ == trim(t@),
{
    let mut start: usize = 0;
    while start < t.len() && crate::text::is_white_space_char(t[start])
        invariant
            start <= t@.len(),
            forall|j: int| 0 <= j < start ==> is_white_space(#[trigger] t@[j]),
        decreases t.len() - start,
    {
        start = start + 1;
    }
    proof {
        lemma_trim_start_skips(t@, start as int);
    }
    let ghost front = t@.subrange(start as int, t@.len() as int);
    let mut end: usize = t.len();
    while end > start && crate::text::is_white_space_char(t[end - 1])
        invariant
            start <= end <= t@.len(),
            front == t@.subrange(start as int, t@.len() as int),
            forall|j: int| end - start <= j < front.len() ==> is_white_space(#[trigger] front[j]),
        decreases end,
    {
        assert(front[end - 1 - start] == t@[end - 1]);
        end = end - 1;
    }
    proof {
        if end > start {
            assert(front[end - start - 1] == t@[end - 1]);
        }
        lemma_trim_end_skips(front, end - start);
    }
    let mut r: Vec<char> = Vec::new();
    let mut i: usize = start;
    while i < end
        invariant
            start <= i <= end <= t@.len(),
            r@ == t@.subrange(start as int, i as int),
        decreases end - i,
    {
        r.push(t[i]);
        assert(r@ =~= t@.subrange(start as int, i + 1));
        i = i + 1;
    }
    assert(front.subrange(0, end - start) =~= t@.subrange(start as int, end as int));
    r
}

/// Read an index the way `str::parse::<usize>` does.
fn parse_index(t: &Vec<char>) -> (r: Option<usize>)
    ensures
        r == parsed_index(t@),
{
    let skip: usize = if t.len() > 0 && t[0] == '+' {
        1
    } else {
        0
    };
    let ghost d = unsigned_digits(t@);
    assert(d =~= t@.subrange(skip as int, t@.len() as int));
    if t.len() == skip {
        return None;
    }
    let mut value: usize = 0;
    let mut overflow = false;
    let mut i: usize = skip;
    while i < t.len()
        invariant
            skip <= i <= t@.len(),
            skip < t@.len(),
            d == t@.subrange(skip as int, t@.len() as int),
            d == unsigned_digits(t@),
            forall|j: int| skip <= j < i ==> is_ascii_digit(#[trigger] t@[j]),
            !overflow ==> value == digits_value(t@.subrange(skip as int, i as int)),
            overflow ==> digits_value(t@.subrange(skip as int, i as int)) > usize::MAX,
        decreases t.len() - i,
    {
        let c = t[i];
        if !('0' <= c && c <= '9') {
            assert(!is_ascii_digit(d[i - skip]));
            assert(!all_ascii_digits(d));
            return None;
        }
        let digit: usize = ((c as u32) - 48) as usize;
        let ghost prefix = t@.subrange(skip as int, i as int);
        assert(t@.subrange(skip as int, i + 1).drop_last() =~= prefix);
        assert(t@.subrange(skip as int, i + 1).last() == c);
        if !overflow {
            if value > (usize::MAX - digit) / 10 {
                overflow = true;
            } else {
                value = value * 10 + digit;
            }
        }
        i = i + 1;
    }
    assert(t@.subrange(skip as int, t@.len() as int) == d);
    assert forall|j: int| 0 <= j < d.len() implies is_ascii_digit(#[trigger] d[j]) by {
        assert(d[j] == t@[j + skip]);
    }
    assert(all_ascii_digits(d));
    if overflow {
        None
    } else {
        Some(value)
    }
}

/// Read the indices in a line typed by a learner: pieces between commas, spaces and
/// semicolons, trimmed, each read as a `usize`; pieces that do not read are skipped.
pub fn parse_indices(input: &str) -> (r: Vec<usize>)
    ensures
        r@ == typed_indices(input@),
{
    broadcast use vstd::string::group_string_axioms;
    let mut out: Vec<usize> = Vec::new();
    let mut current: Vec<char> = Vec::new();
    for c in it: input.chars()
        invariant
            it.seq() == input@,
            pieces(input@.take(it.index() as int)).len() >= 1,
            current@ == pieces(input@.take(it.index() as int)).last(),
            out@ == indices_of_pieces(
                pieces(input@.take(it.index() as int)),
                (pieces(input@.take(it.index() as int)).len() - 1) as nat,
            ),
    {
        let ghost before = input@.take(it.index() as int);
        let ghost after = input@.take(it.index() + 1);
        proof {
            assert(after.drop_last() =~= before);
            assert(after.last() == c);
            lemma_pieces_not_empty(before);
        }
        if c == ',' || c == ' ' || c == ';' {
            let piece = trimmed(&current);
            match parse_index(&piece) {
                Some(v) => {
                    out.push(v);
                },
                None => {},
            }
            let ghost ps = pieces(after);
            assert(ps == pieces(before).push(Seq::empty()));
            assert(ps[ps.len() - 2] == current@);
            assert(indices_of_pieces(ps, (ps.len() - 2) as nat) == indices_of_pieces(
                pieces(before),
                (pieces(before).len() - 1) as nat,
            )) by {
                lemma_indices_of_prefix_pieces(pieces(before), ps, (ps.len() - 2) as nat);
            }
            assert(out@ =~= indices_of_pieces(ps, (ps.len() - 1) as nat));
            current = Vec::new();
            assert(current@ =~= ps.last());
        } else {
            current.push(c);
            let ghost ps = pieces(after);
            proof {
                lemma_indices_of_prefix_pieces(pieces(before), ps, (ps.len() - 1) as nat);
            }
        }
    }
    proof {
        assert(input@.take(input@.len() as int) =~= input@);
        lemma_pieces_not_empty(input@);
    }
    let piece = trimmed(&current);
    match parse_index(&piece) {
        Some(v) => {
            out.push(v);
        },
        None => {},
    }
    assert(out@ =~= typed_indices(input@));
    out
}

proof fn lemma_indices_of_prefix_pieces(a: Seq<Seq<char>>, b: Seq<Seq<char>>, n: nat)
    requires
        n <= a.len(),
        n <= b.len(),
        forall|k: int| 0 <= k < n ==> a[k] == b[k],
    ensures
        indices_of_pieces(a, n) == indices_of_pieces(b, n),
    decreases n,
{
    if n > 0 {
        lemma_indices_of_prefix_pieces(a, b, (n - 1) as nat);
    }
}

/// The rule drawn between sections of the terminal display: 64 box-drawing dashes.
pub open spec fn rule_text() -> Seq<char> {
    Seq::new(64, |i: int| '─')
}

/// Draw the rule between sections of the terminal display.
pub fn line() -> (r: String)
    ensures
        r@ == rule_text(),
{
    proof {
        reveal_strlit("─");
    }
    let mut r = String::new();
    let mut i: usize = 0;
    while i < 64
        invariant
            i <= 64,
            "─"@ == seq!['─'],
            r@ == Seq::new(i as nat, |k: int| '─'),
        decreases 64 - i,
    {
        r.append("─");
        assert(r@ =~= Seq::new((i + 1) as nat, |k: int| '─'));
        i = i + 1;
    }
    r
}

} // verus!
