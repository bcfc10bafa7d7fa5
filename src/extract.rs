use vstd::prelude::*;
use vstd::string::*;

use crate::text::{join_texts, join_with, split_on, split_text, strs, trim, trimmed, unique, unique_texts};
use crate::web_url::{pairs_view, QueryModel};
use crate::text::text_eq;

verus! {

/// Each text preceded by one space, all run together.
pub open spec fn spaced(ts: Seq<Seq<char>>) -> Seq<char>
    decreases ts.len(),
{
    if ts.len() == 0 {
        Seq::empty()
    } else {
        spaced(ts.drop_last()) + " "@ + ts.last()
    }
}

/// The title: for each head, its titles' texts each after a space; the
/// heads joined by spaces; trimmed.
pub open spec fn title_of(heads: Seq<Seq<Seq<char>>>) -> Seq<char> {
    trimmed(join_with(heads.map_values(|h: Seq<Seq<char>>| spaced(h)), " "@))
}

/// The author: the distinct texts in first-seen order, joined by spaces,
/// trimmed.
pub open spec fn author_of(texts: Seq<Seq<char>>) -> Seq<char> {
    trimmed(join_with(unique(texts), " "@))
}

pub open spec fn strip_cr(p: Seq<char>) -> Seq<char> {
    if p.len() > 0 && p.last() == '\r' {
        p.drop_last()
    } else {
        p
    }
}

/// The lines of `t`: pieces between line feeds, a carriage return before a
/// line feed dropped.
pub open spec fn line_pieces(t: Seq<char>) -> Seq<Seq<char>> {
    cr_stripped(split_on(t, '\n'))
}

/// Each piece but the last without a final carriage return.
pub open spec fn cr_stripped(ps: Seq<Seq<char>>) -> Seq<Seq<char>> {
    Seq::new(
        ps.len(),
        |i: int|
            if i + 1 < ps.len() {
                strip_cr(ps[i])
            } else {
                ps[i]
            },
    )
}

/// The non-empty texts of `s`, in order.
pub open spec fn nonempty(s: Seq<Seq<char>>) -> Seq<Seq<char>>
    decreases s.len(),
{
    if s.len() == 0 {
        s
    } else if s.last().len() > 0 {
        nonempty(s.drop_last()).push(s.last())
    } else {
        nonempty(s.drop_last())
    }
}

/// The non-empty lines of `t`.
pub open spec fn text_lines(t: Seq<char>) -> Seq<Seq<char>> {
    nonempty(line_pieces(t))
}

/// The sequences of `s` one after another.
pub open spec fn concat_all(s: Seq<Seq<Seq<char>>>) -> Seq<Seq<char>>
    decreases s.len(),
{
    if s.len() == 0 {
        Seq::empty()
    } else {
        concat_all(s.drop_last()) + s.last()
    }
}

/// The non-empty lines of each text, in order.
pub open spec fn body_of(texts: Seq<Seq<char>>) -> Seq<Seq<char>> {
    concat_all(texts.map_values(|t: Seq<char>| text_lines(t)))
}

pub open spec fn is_digit(c: char) -> bool {
    '0' <= c <= '9'
}

pub open spec fn digit_value(c: char) -> nat {
    ((c as u32) - ('0' as u32)) as nat
}

pub open spec fn all_digits(d: Seq<char>) -> bool {
    forall|i: int| 0 <= i < d.len() ==> is_digit(#[trigger] d[i])
}

/// `s` without one leading `+`.
pub open spec fn unsigned_part(s: Seq<char>) -> Seq<char> {
    if s.len() > 0 && s[0] == '+' {
        s.drop_first()
    } else {
        s
    }
}

pub open spec fn digits_value(s: Seq<char>) -> nat
    decreases s.len(),
{
    if s.len() == 0 {
        0
    } else {
        digits_value(s.drop_last()) * 10 + digit_value(s.last())
    }
}

/// `s` read as an unsigned decimal: an optional `+`, then at least one
/// digit, with a value that fits in `usize`.
pub open spec fn decimal_usize(s: Seq<char>) -> Option<usize> {
    let d = unsigned_part(s);
    if d.len() > 0 && all_digits(d) && digits_value(d) <= usize::MAX {
        Some(digits_value(d) as usize)
    } else {
        None
    }
}

/// The value of the last pair of `q` with key `key`.
pub open spec fn last_value(q: QueryModel, key: Seq<char>) -> Option<Seq<char>>
    decreases q.len(),
{
    if q.len() == 0 {
        None
    } else if q.last().0 == key {
        Some(q.last().1)
    } else {
        last_value(q.drop_last(), key)
    }
}

/// The page number that a query names: its `page` value read as a decimal,
/// else 1.
pub open spec fn page_number(q: QueryModel) -> usize {
    match last_value(q, "page"@) {
        Some(v) => match decimal_usize(v) {
            Some(n) => n,
            None => 1,
        },
        None => 1,
    }
}

/// The title of a page from the texts of the titles in each head.
pub fn title_text(heads: &Vec<Vec<String>>) -> (r: String)
    ensures
        r@ == title_of(crate::html::strss(heads@)),
{
    let mut parts: Vec<String> = Vec::new();
    let mut i: usize = 0;
    while i < heads.len()
        invariant
            i <= heads@.len(),
            strs(parts@) == crate::html::strss(heads@.subrange(0, i as int)).map_values(
                |h: Seq<Seq<char>>| spaced(h),
            ),
        decreases heads@.len() - i,
    {
        let head = &heads[i];
        let mut acc = String::new();
        let mut j: usize = 0;
        while j < head.len()
            invariant
                j <= head@.len(),
                acc@ == spaced(strs(head@.subrange(0, j as int))),
            decreases head@.len() - j,
        {
            assert(strs(head@.subrange(0, j + 1)).drop_last() =~= strs(head@.subrange(0, j as int)));
            acc.append(" ");
            acc.append(head[j].as_str());
            j = j + 1;
        }
        assert(head@.subrange(0, head@.len() as int) =~= head@);
        let ghost before = parts@;
        parts.push(acc);
        let ghost prev = crate::html::strss(heads@.subrange(0, i as int));
        let ghost h = strs(heads@[i as int]@);
        assert(crate::html::strss(heads@.subrange(0, i + 1)) =~= prev.push(h));
        assert(prev.push(h).map_values(|h: Seq<Seq<char>>| spaced(h)) =~= prev.map_values(
            |h: Seq<Seq<char>>| spaced(h),
        ).push(spaced(h)));
        assert(strs(parts@) =~= strs(before).push(acc@));
        i = i + 1;
    }
    assert(heads@.subrange(0, heads@.len() as int) =~= heads@);
    let joined = join_texts(&parts, " ");
    trim(joined.as_str())
}

/// The author of a page from the texts of the elements its rules select.
pub fn author_text(texts: &Vec<String>) -> (r: String)
    ensures
        r@ == author_of(strs(texts@)),
{
    let distinct = unique_texts(texts);
    let joined = join_texts(&distinct, " ");
    trim(joined.as_str())
}

/// The non-empty lines of `t`.
pub fn lines_of(t: &str) -> (r: Vec<String>)
    ensures
        strs(r@) == text_lines(t@),
{
    let pieces = split_text(t, '\n');
    let ghost ps = split_on(t@, '\n');
    let mut out: Vec<String> = Vec::new();
    let mut k: usize = 0;
    assert(line_pieces(t@).len() == pieces@.len());
    while k < pieces.len()
        invariant
            strs(pieces@) == ps,
            ps == split_on(t@, '\n'),
            k <= pieces@.len(),
            line_pieces(t@).len() == pieces@.len(),
            strs(out@) == nonempty(line_pieces(t@).subrange(0, k as int)),
        decreases pieces@.len() - k,
    {
        assert(line_pieces(t@).subrange(0, k + 1).drop_last() =~= line_pieces(t@).subrange(
            0,
            k as int,
        ));
        let piece = pieces[k].as_str();
        assert(piece@ == ps[k as int]);
        assert(ps.len() == pieces@.len());
        let n = piece.unicode_len();
        let line: &str = if k + 1 < pieces.len() && n > 0 && piece.get_char(n - 1) == '\r' {
            piece.substring_char(0, n - 1)
        } else {
            piece
        };
        assert(line_pieces(t@)[k as int] == (if k + 1 < ps.len() {
            strip_cr(ps[k as int])
        } else {
            ps[k as int]
        }));
        assert(line@ =~= line_pieces(t@)[k as int]);
        if line.unicode_len() > 0 {
            let ghost before = out@;
            out.push(line.to_string());
            assert(strs(out@) =~= strs(before).push(line@));
        }
        k = k + 1;
    }
    assert(line_pieces(t@).subrange(0, pieces@.len() as int) =~= line_pieces(t@));
    out
}

/// The non-empty lines of each text, in order.
pub fn body_lines(texts: &Vec<String>) -> (r: Vec<String>)
    ensures
        strs(r@) == body_of(strs(texts@)),
{
    let mut out: Vec<String> = Vec::new();
    let mut i: usize = 0;
    while i < texts.len()
        invariant
            i <= texts@.len(),
            strs(out@) == body_of(strs(texts@.subrange(0, i as int))),
        decreases texts@.len() - i,
    {
        assert(strs(texts@.subrange(0, i + 1)).map_values(|t: Seq<char>| text_lines(t)).drop_last()
            =~= strs(texts@.subrange(0, i as int)).map_values(|t: Seq<char>| text_lines(t)));
        let mut lines = lines_of(texts[i].as_str());
        let ghost before = out@;
        let ghost ls = lines@;
        out.append(&mut lines);
        assert(strs(out@) =~= strs(before) + strs(ls));
        i = i + 1;
    }
    assert(texts@.subrange(0, texts@.len() as int) =~= texts@);
    out
}

proof fn lemma_digits_prefix(s: Seq<char>, j: int)
    requires
        0 <= j <= s.len(),
    ensures
        digits_value(s.subrange(0, j)) <= digits_value(s),
    decreases s.len(),
{
    if j < s.len() {
        assert(s.drop_last() =~= s.subrange(0, s.len() - 1));
        lemma_digits_prefix(s.drop_last(), j);
        assert(s.drop_last().subrange(0, j) =~= s.subrange(0, j));
    } else {
        assert(s.subrange(0, j) =~= s);
    }
}

/// Reads `s` as an unsigned decimal.
pub fn parse_usize(s: &str) -> (r: Option<usize>)
    ensures
        r == decimal_usize(s@),
{
    let n = s.unicode_len();
    let start: usize = if n > 0 && s.get_char(0) == '+' {
        1
    } else {
        0
    };
    let ghost d = unsigned_part(s@);
    assert(d =~= s@.subrange(start as int, n as int));
    if start == n {
        return None;
    }
    let mut v: usize = 0;
    let mut i: usize = start;
    while i < n
        invariant
            n == s@.len(),
            start <= i <= n,
            d == s@.subrange(start as int, n as int),
            d == unsigned_part(s@),
            v as nat == digits_value(d.subrange(0, i - start)),
            forall|k: int| 0 <= k < i - start ==> is_digit(#[trigger] d[k]),
        decreases n - i,
    {
        let c = s.get_char(i);
        assert(d[i - start] == c);
        assert(d.subrange(0, i - start + 1).drop_last() =~= d.subrange(0, i - start));
        if !('0' <= c && c <= '9') {
            assert(!is_digit(d[i - start]));
            assert(!all_digits(d));
            return None;
        }
        let digit: usize = ((c as u32) - ('0' as u32)) as usize;
        assert(digits_value(d.subrange(0, i - start + 1)) == v * 10 + digit);
        if v > (usize::MAX - digit) / 10 {
            assert(v * 10 + digit > usize::MAX) by (nonlinear_arith)
                requires
                    v > (usize::MAX - digit) / 10,
                    digit <= 9,
            ;
            proof {
                lemma_digits_prefix(d, i - start + 1);
            }
            assert(digits_value(d) > usize::MAX);
            return None;
        }
        assert(v * 10 + digit <= usize::MAX) by (nonlinear_arith)
            requires
                v <= (usize::MAX - digit) / 10,
                digit <= 9,
        ;
        v = v * 10 + digit;
        i = i + 1;
    }
    assert(d.subrange(0, n - start) =~= d);
    Some(v)
}

/// The value of the last pair of `q` with key `key`.
pub fn last_value_of(q: &Vec<(String, String)>, key: &str) -> (r: Option<String>)
    ensures
        crate::web_url::opt_view(r) == last_value(pairs_view(q@), key@),
{
    let mut i: usize = q.len();
    assert(pairs_view(q@).subrange(0, i as int) =~= pairs_view(q@));
    while i > 0
        invariant
            i <= q@.len(),
            last_value(pairs_view(q@), key@) == last_value(
                pairs_view(q@).subrange(0, i as int),
                key@,
            ),
        decreases i,
    {
        assert(pairs_view(q@).subrange(0, i as int).drop_last() =~= pairs_view(q@).subrange(
            0,
            i - 1,
        ));
        if text_eq(q[i - 1].0.as_str(), key) {
            return Some(q[i - 1].1.clone());
        }
        i = i - 1;
    }
    None
}

/// The page number that the query pairs `q` name.
pub fn page_of(q: &Vec<(String, String)>) -> (r: usize)
    ensures
        r == page_number(pairs_view(q@)),
{
    match last_value_of(q, "page") {
        Some(v) => match parse_usize(v.as_str()) {
            Some(n) => n,
            None => 1,
        },
        None => 1,
    }
}

} // verus!
