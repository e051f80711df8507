//! Splitting text into lines and whitespace-separated words, and reading a
//! word as a decimal `i32`, the way the tile map file is read.
use vstd::prelude::*;

verus! {

/// The Unicode `White_Space` characters (those for which `char::is_whitespace` holds).
pub open spec fn is_white_space(c: char) -> bool {
    let u = c as u32;
    ||| 0x9 <= u <= 0xd
    ||| u == 0x20
    ||| u == 0x85
    ||| u == 0xa0
    ||| u == 0x1680
    ||| 0x2000 <= u <= 0x200a
    ||| u == 0x2028
    ||| u == 0x2029
    ||| u == 0x202f
    ||| u == 0x205f
    ||| u == 0x3000
}

/// The pieces of `s` between newline characters, in order; there is always
/// one more piece than there are newlines.
pub open spec fn segments(s: Seq<char>) -> Seq<Seq<char>>
    decreases s.len(),
{
    if s.len() == 0 {
        seq![Seq::empty()]
    } else {
        let p = segments(s.drop_last());
        if s.last() == '\n' {
            p.push(Seq::empty())
        } else {
            p.update(p.len() - 1, p.last().push(s.last()))
        }
    }
}

/// The lines of `s`: its newline-separated pieces, where a final newline
/// does not start another line (so the empty text has no lines). A carriage
/// return before a newline stays in its line; being white space, it never
/// shows up in a word.
pub open spec fn lines(s: Seq<char>) -> Seq<Seq<char>> {
    let g = segments(s);
    if g.last().len() == 0 {
        g.drop_last()
    } else {
        g
    }
}

/// The maximal runs of characters that are not white space, in order.
pub open spec fn words(s: Seq<char>) -> Seq<Seq<char>>
    decreases s.len(),
{
    if s.len() == 0 {
        Seq::empty()
    } else {
        let p = s.drop_last();
        let c = s.last();
        let w = words(p);
        if is_white_space(c) {
            w
        } else if p.len() > 0 && !is_white_space(p.last()) {
            w.update(w.len() - 1, w.last().push(c))
        } else {
            w.push(seq![c])
        }
    }
}

pub open spec fn is_digit(c: char) -> bool {
    '0' <= c <= '9'
}

/// The number written by a string of decimal digits.
pub open spec fn digits_value(t: Seq<char>) -> int
    decreases t.len(),
{
    if t.len() == 0 {
        0
    } else {
        digits_value(t.drop_last()) * 10 + (t.last() as int - '0' as int)
    }
}

/// Whether the word starts with a sign character.
pub open spec fn has_sign(t: Seq<char>) -> bool {
    t.len() > 0 && (t[0] == '+' || t[0] == '-')
}

/// The word without its sign character.
pub open spec fn unsigned_part(t: Seq<char>) -> Seq<char> {
    if has_sign(t) {
        t.skip(1)
    } else {
        t
    }
}

pub open spec fn all_digits(t: Seq<char>) -> bool {
    forall|i: int| 0 <= i < t.len() ==> is_digit(#[trigger] t[i])
}

/// What `str::parse::<i32>` gives: an optional `+` or `-` followed by at least
/// one decimal digit, the value lying in the `i32` range.
pub open spec fn parse_i32(t: Seq<char>) -> Option<i32> {
    let body = unsigned_part(t);
    let v = if has_sign(t) && t[0] == '-' {
        -digits_value(body)
    } else {
        digits_value(body)
    };
    if body.len() == 0 || !all_digits(body) {
        None
    } else if i32::MIN <= v <= i32::MAX {
        Some(v as i32)
    } else {
        None
    }
}

/// The contents of each vector.
pub open spec fn views(v: Seq<Vec<char>>) -> Seq<Seq<char>> {
    v.map_values(|x: Vec<char>| x@)
}

proof fn lemma_segments_nonempty(s: Seq<char>)
    ensures
        segments(s).len() >= 1,
    decreases s.len(),
{
    if s.len() > 0 {
        lemma_segments_nonempty(s.drop_last());
    }
}

fn is_white_space_exec(c: char) -> (r: bool)
    ensures
        r == is_white_space(c),
{
    let u = c as u32;
    (0x9 <= u && u <= 0xd) || u == 0x20 || u == 0x85 || u == 0xa0 || u == 0x1680 || (0x2000 <= u
        && u <= 0x200a) || u == 0x2028 || u == 0x2029 || u == 0x202f || u == 0x205f || u == 0x3000
}

/// The lines of `s`, as `str::lines` splits them (a carriage return before a
/// newline is kept in the line).
pub fn split_lines(s: &Vec<char>) -> (r: Vec<Vec<char>>)
    ensures
        views(r@) == lines(s@),
{
    let mut done: Vec<Vec<char>> = Vec::new();
    let mut cur: Vec<char> = Vec::new();
    let mut i: usize = 0;
    while i < s.len()
        invariant
            i <= s.len(),
            segments(s@.take(i as int)) == views(done@).push(cur@),
        decreases s.len() - i,
    {
        let c = s[i];
        proof {
            assert(s@.take(i + 1).drop_last() =~= s@.take(i as int));
            lemma_segments_nonempty(s@.take(i as int));
        }
        if c == '\n' {
            let ghost old_done = done@;
            done.push(cur);
            cur = Vec::new();
            assert(views(done@) =~= views(old_done).push(views(done@).last()));
            assert(segments(s@.take(i + 1)) =~= views(done@).push(cur@));
        } else {
            cur.push(c);
            assert(segments(s@.take(i + 1)) =~= views(done@).push(cur@));
        }
        i = i + 1;
    }
    assert(s@.take(s.len() as int) =~= s@);
    if cur.len() > 0 {
        let ghost old_done = done@;
        done.push(cur);
        assert(views(done@) =~= views(old_done).push(views(done@).last()));
    }
    done
}

/// The words of `s`, as `str::split_whitespace` finds them.
pub fn split_words(s: &Vec<char>) -> (r: Vec<Vec<char>>)
    ensures
        views(r@) == words(s@),
{
    let mut done: Vec<Vec<char>> = Vec::new();
    let mut cur: Vec<char> = Vec::new();
    let mut i: usize = 0;
    while i < s.len()
        invariant
            i <= s.len(),
            words(s@.take(i as int)) == if cur@.len() > 0 {
                views(done@).push(cur@)
            } else {
                views(done@)
            },
            cur@.len() > 0 <==> (i > 0 && !is_white_space(s@[i - 1])),
        decreases s.len() - i,
    {
        let c = s[i];
        proof {
            assert(s@.take(i + 1).drop_last() =~= s@.take(i as int));
        }
        if is_white_space_exec(c) {
            if cur.len() > 0 {
                let ghost old_done = done@;
                done.push(cur);
                cur = Vec::new();
                assert(views(done@) =~= views(old_done).push(views(done@).last()));
            }
        } else {
            let ghost old_cur = cur@;
            cur.push(c);
            assert(old_cur.len() == 0 ==> cur@ =~= seq![c]);
            assert(words(s@.take(i + 1)) =~= views(done@).push(cur@));
        }
        i = i + 1;
    }
    assert(s@.take(s.len() as int) =~= s@);
    if cur.len() > 0 {
        let ghost old_done = done@;
        done.push(cur);
        assert(views(done@) =~= views(old_done).push(views(done@).last()));
    }
    done
}

proof fn lemma_digits_value_prefix(t: Seq<char>, k: int)
    requires
        forall|i: int| 0 <= i < t.len() ==> is_digit(#[trigger] t[i]),
        0 <= k <= t.len(),
    ensures
        0 <= digits_value(t.take(k)) <= digits_value(t),
    decreases t.len(),
{
    if t.len() > 0 {
        let p = t.drop_last();
        assert(forall|i: int| 0 <= i < p.len() ==> is_digit(#[trigger] p[i]) && p[i] == t[i]);
        if k == t.len() {
            lemma_digits_value_prefix(p, p.len() as int);
            assert(p.take(p.len() as int) =~= p);
            assert(t.take(k) =~= t);
        } else {
            lemma_digits_value_prefix(p, k);
            assert(p.take(k) =~= t.take(k));
            lemma_digits_value_prefix(p, p.len() as int);
            assert(p.take(p.len() as int) =~= p);
            assert(is_digit(t[t.len() - 1]));
        }
    }
}

/// Reads a word as a decimal `i32`, as `str::parse::<i32>` does.
pub fn parse_i32_exec(t: &Vec<char>) -> (r: Option<i32>)
    ensures
        r == parse_i32(t@),
{
    let n = t.len();
    let mut start: usize = 0;
    let mut neg = false;
    if n > 0 && (t[0] == '+' || t[0] == '-') {
        start = 1;
        neg = t[0] == '-';
    }
    let ghost body = unsigned_part(t@);
    assert(body =~= t@.subrange(start as int, n as int));
    if start == n {
        return None;
    }
    let mut val: i64 = 0;
    let mut i: usize = start;
    while i < n
        invariant
            start <= i <= n,
            n == t.len(),
            body =~= t@.subrange(start as int, n as int),
            body.len() > 0,
            body == unsigned_part(t@),
            neg == (t@.len() > 0 && t@[0] == '-'),
            forall|j: int| 0 <= j < i - start ==> is_digit(#[trigger] body[j]),
            val == digits_value(body.take(i - start)),
            0 <= val <= 2147483648,
        decreases n - i,
    {
        let c = t[i];
        assert(body[i - start] == c);
        if !(c >= '0' && c <= '9') {
            assert(!is_digit(body[i - start]));
            return None;
        }
        assert(body.take(i + 1 - start).drop_last() =~= body.take(i - start));
        let d = (c as u32 - '0' as u32) as i64;
        val = val * 10 + d;
        if val > 2147483648 {
            proof {
                if all_digits(body) {
                    lemma_digits_value_prefix(body, i + 1 - start);
                }
            }
            return None;
        }
        i = i + 1;
    }
    assert(body.take(n - start) =~= body);
    if neg {
        Some((-val) as i32)
    } else if val <= 2147483647 {
        Some(val as i32)
    } else {
        None
    }
}

} // verus!
