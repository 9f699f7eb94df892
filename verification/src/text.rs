use vstd::prelude::*;
use vstd::string::*;

verus! {

/// The characters that carry the Unicode `White_Space` property.
pub open spec fn is_white_space(c: char) -> bool {
    let n = c as u32;
    ||| 0x09 <= n <= 0x0d
    ||| n == 0x20
    ||| n == 0x85
    ||| n == 0xa0
    ||| n == 0x1680
    ||| 0x2000 <= n <= 0x200a
    ||| n == 0x2028
    ||| n == 0x2029
    ||| n == 0x202f
    ||| n == 0x205f
    ||| n == 0x3000
}

/// Text that holds nothing but white space (what `trim` reduces to the empty string).
pub open spec fn is_blank_text(s: Seq<char>) -> bool {
    forall|i: int| 0 <= i < s.len() ==> is_white_space(#[trigger] s[i])
}

pub fn is_white_space_char(c: char) -> (r: bool)
    ensures
        r == is_white_space(c),
{
    let n: u32 = c as u32;
    (0x09 <= n && n <= 0x0d) || n == 0x20 || n == 0x85 || n == 0xa0 || n == 0x1680 || (0x2000
        <= n && n <= 0x200a) || n == 0x2028 || n == 0x2029 || n == 0x202f || n == 0x205f || n
        == 0x3000
}

pub fn is_blank(s: &str) -> (r: bool)
    ensures
        r == is_blank_text(s@),
{
    broadcast use vstd::string::group_string_axioms;
    let mut all = true;
    for c in it: s.chars()
        invariant
            all == (forall|i: int| 0 <= i < it.index() ==> is_white_space(#[trigger] it.seq()[i])),
            it.seq() == s@,
    {
        if !is_white_space_char(c) {
            all = false;
        }
    }
    all
}


/// The first character of `s` that is not white space, if any (what `trim_start` begins with).
pub open spec fn leading_char(s: Seq<char>) -> Option<char>
    decreases s.len(),
{
    if s.len() == 0 {
        None
    } else if is_white_space(s[0]) {
        leading_char(s.drop_first())
    } else {
        Some(s[0])
    }
}

proof fn lemma_leading_char_after_blank_prefix(s: Seq<char>, i: int)
    requires
        0 <= i < s.len(),
        is_blank_text(s.take(i)),
        !is_white_space(s[i]),
    ensures
        leading_char(s) == Some(s[i]),
    decreases i,
{
    if i > 0 {
        assert(is_white_space(s.take(i)[0]));
        assert(s.drop_first().take(i - 1) =~= s.take(i).drop_first());
        lemma_leading_char_after_blank_prefix(s.drop_first(), i - 1);
    }
}

proof fn lemma_leading_char_of_blank(s: Seq<char>)
    requires
        is_blank_text(s),
    ensures
        leading_char(s) is None,
    decreases s.len(),
{
    if s.len() > 0 {
        assert(is_white_space(s[0]));
        lemma_leading_char_of_blank(s.drop_first());
    }
}

/// Returns the first character of `s` that is not white space.
pub fn first_visible_char(s: &str) -> (r: Option<char>)
    ensures
        r == leading_char(s@),
{
    broadcast use vstd::string::group_string_axioms;
    let mut found: Option<char> = None;
    for c in it: s.chars()
        invariant
            it.seq() == s@,
            found is None ==> is_blank_text(s@.take(it.index() as int)),
            found is Some ==> found == leading_char(s@),
    {
        if found.is_none() {
            if is_white_space_char(c) {
                assert(s@.take(it.index() + 1) =~= s@.take(it.index() as int).push(c));
            } else {
                proof {
                    lemma_leading_char_after_blank_prefix(s@, it.index() as int);
                }
                found = Some(c);
            }
        }
    }
    proof {
        if found is None {
            assert(s@.take(s@.len() as int) =~= s@);
            lemma_leading_char_of_blank(s@);
        }
    }
    found
}

/// The decimal digit character of `d`, for `d < 10`.
pub open spec fn digit_char(d: nat) -> char {
    (48 + d) as char
}

/// The decimal representation of `n`, most significant digit first, without leading zeros.
pub open spec fn decimal_text(n: nat) -> Seq<char>
    decreases n,
{
    if n < 10 {
        seq![digit_char(n)]
    } else {
        decimal_text(n / 10) + seq![digit_char(n % 10)]
    }
}

fn digit_string(d: u64) -> (r: String)
    requires
        d < 10,
    ensures
        r@ == seq![digit_char(d as nat)],
{
    proof {
        reveal_strlit("0");
        reveal_strlit("1");
        reveal_strlit("2");
        reveal_strlit("3");
        reveal_strlit("4");
        reveal_strlit("5");
        reveal_strlit("6");
        reveal_strlit("7");
        reveal_strlit("8");
        reveal_strlit("9");
    }
    let r = if d == 0 {
        String::from_str("0")
    } else if d == 1 {
        String::from_str("1")
    } else if d == 2 {
        String::from_str("2")
    } else if d == 3 {
        String::from_str("3")
    } else if d == 4 {
        String::from_str("4")
    } else if d == 5 {
        String::from_str("5")
    } else if d == 6 {
        String::from_str("6")
    } else if d == 7 {
        String::from_str("7")
    } else if d == 8 {
        String::from_str("8")
    } else {
        String::from_str("9")
    };
    assert(r@ =~= seq![digit_char(d as nat)]);
    r
}

/// Writes `n` in decimal.
pub fn decimal_string(n: u64) -> (r: String)
    ensures
        r@ == decimal_text(n as nat),
    decreases n,
{
    if n < 10 {
        digit_string(n)
    } else {
        let mut s = decimal_string(n / 10);
        let d = digit_string(n % 10);
        s.append(d.as_str());
        s
    }
}


/// `parts` laid end to end with `sep` between consecutive parts.
pub open spec fn joined(parts: Seq<Seq<char>>, sep: Seq<char>) -> Seq<char>
    decreases parts.len(),
{
    if parts.len() == 0 {
        Seq::empty()
    } else if parts.len() == 1 {
        parts[0]
    } else {
        joined(parts.drop_last(), sep) + sep + parts.last()
    }
}

pub proof fn lemma_joined_push(parts: Seq<Seq<char>>, sep: Seq<char>, p: Seq<char>)
    ensures
        joined(parts.push(p), sep) == if parts.len() == 0 {
            p
        } else {
            joined(parts, sep) + sep + p
        },
{
    assert(parts.push(p).drop_last() =~= parts);
}

/// How `{:?}` writes a list of unsigned integers, such as `[1, 20, 3]`.
pub open spec fn debug_list_text(xs: Seq<usize>) -> Seq<char> {
    "["@ + joined(xs.map_values(|x: usize| decimal_text(x as nat)), ", "@) + "]"@
}

/// Writes a list of unsigned integers the way `{:?}` does.
pub fn debug_list_string(xs: &Vec<usize>) -> (r: String)
    ensures
        r@ == debug_list_text(xs@),
{
    let ghost parts = xs@.map_values(|x: usize| decimal_text(x as nat));
    let mut body = String::new();
    let mut i: usize = 0;
    while i < xs.len()
        invariant
            i <= xs.len(),
            parts == xs@.map_values(|x: usize| decimal_text(x as nat)),
            body@ == joined(parts.take(i as int), ", "@),
        decreases xs.len() - i,
    {
        let digits = decimal_string(xs[i] as u64);
        proof {
            lemma_joined_push(parts.take(i as int), ", "@, parts[i as int]);
            assert(parts.take(i + 1) =~= parts.take(i as int).push(parts[i as int]));
        }
        if i > 0 {
            body.append(", ");
        }
        body.append(digits.as_str());
        i = i + 1;
    }
    assert(parts.take(xs@.len() as int) =~= parts);
    let mut r = String::from_str("[");
    r.append(body.as_str());
    r.append("]");
    r
}

/// Whether two texts hold the same characters.
pub fn same_text(a: &str, b: &str) -> (r: bool)
    ensures
        r == (a@ == b@),
{
    let x = a.to_owned();
    let y = b.to_owned();
    x == y
}


/// The characters of each text in `v`, in order.
pub open spec fn texts(v: Seq<String>) -> Seq<Seq<char>> {
    v.map_values(|s: String| s@)
}

/// Whether `list` holds a text equal to `s`.
pub fn contains_text(list: &Vec<String>, s: &str) -> (r: bool)
    ensures
        r == texts(list@).contains(s@),
{
    let mut i: usize = 0;
    while i < list.len()
        invariant
            i <= list.len(),
            forall|j: int| 0 <= j < i ==> list@[j]@ != s@,
        decreases list.len() - i,
    {
        if same_text(list[i].as_str(), s) {
            assert(texts(list@)[i as int] == s@);
            return true;
        }
        i = i + 1;
    }
    assert forall|j: int| 0 <= j < texts(list@).len() implies texts(list@)[j] != s@ by {
        assert(texts(list@)[j] == list@[j]@);
    }
    false
}


/// Whether one of the first `end` texts of `list` equals `s`.
pub fn contains_text_before(list: &Vec<String>, end: usize, s: &str) -> (r: bool)
    requires
        end <= list@.len(),
    ensures
        r == texts(list@).take(end as int).contains(s@),
{
    let mut i: usize = 0;
    while i < end
        invariant
            i <= end <= list@.len(),
            forall|j: int| 0 <= j < i ==> list@[j]@ != s@,
        decreases end - i,
    {
        if same_text(list[i].as_str(), s) {
            assert(texts(list@).take(end as int)[i as int] == s@);
            return true;
        }
        i = i + 1;
    }
    assert forall|j: int| 0 <= j < texts(list@).take(end as int).len() implies texts(list@).take(
        end as int,
    )[j] != s@ by {
        assert(texts(list@).take(end as int)[j] == list@[j]@);
    }
    false
}

/// The characters of `s`, in order.
pub fn chars_of(s: &str) -> (r: Vec<char>)
    ensures
        r@ == s@,
{
    broadcast use vstd::string::group_string_axioms;
    let mut out: Vec<char> = Vec::new();
    for c in it: s.chars()
        invariant
            it.seq() == s@,
            out@ == s@.take(it.index() as int),
    {
        assert(s@.take(it.index() + 1) =~= s@.take(it.index() as int).push(c));
        out.push(c);
    }
    assert(s@.take(s@.len() as int) =~= s@);
    out
}

} // verus!
