//! Character-level text helpers.
//!
//! The parser and the render engine both work on sequences of characters:
//! splitting on whitespace, trimming, padding, clipping, and converting task
//! identifiers to and from decimal numerals.  This module holds those
//! helpers together with the specification functions that describe them.

use vstd::prelude::*;

verus! {

/// The Unicode `White_Space` characters, the separators that
/// `split_whitespace` recognises.
pub open spec fn is_space(c: char) -> bool {
    ||| c == '\u{0009}'
    ||| c == '\u{000A}'
    ||| c == '\u{000B}'
    ||| c == '\u{000C}'
    ||| c == '\u{000D}'
    ||| c == ' '
    ||| c == '\u{0085}'
    ||| c == '\u{00A0}'
    ||| c == '\u{1680}'
    ||| c == '\u{2000}'
    ||| c == '\u{2001}'
    ||| c == '\u{2002}'
    ||| c == '\u{2003}'
    ||| c == '\u{2004}'
    ||| c == '\u{2005}'
    ||| c == '\u{2006}'
    ||| c == '\u{2007}'
    ||| c == '\u{2008}'
    ||| c == '\u{2009}'
    ||| c == '\u{200A}'
    ||| c == '\u{2028}'
    ||| c == '\u{2029}'
    ||| c == '\u{202F}'
    ||| c == '\u{205F}'
    ||| c == '\u{3000}'
}

/// Decides [`is_space`].
pub fn is_space_char(c: char) -> (r: bool)
    ensures
        r == is_space(c),
{
    c == '\u{0009}' || c == '\u{000A}' || c == '\u{000B}' || c == '\u{000C}' || c == '\u{000D}'
        || c == ' ' || c == '\u{0085}' || c == '\u{00A0}' || c == '\u{1680}' || c == '\u{2000}'
        || c == '\u{2001}' || c == '\u{2002}' || c == '\u{2003}' || c == '\u{2004}' || c
        == '\u{2005}' || c == '\u{2006}' || c == '\u{2007}' || c == '\u{2008}' || c == '\u{2009}'
        || c == '\u{200A}' || c == '\u{2028}' || c == '\u{2029}' || c == '\u{202F}' || c
        == '\u{205F}' || c == '\u{3000}'
}

/// `s` without its longest prefix of characters satisfying `p`.
pub open spec fn drop_while_front(s: Seq<char>, p: spec_fn(char) -> bool) -> Seq<char>
    decreases s.len(),
{
    if s.len() == 0 {
        s
    } else if p(s[0]) {
        drop_while_front(s.drop_first(), p)
    } else {
        s
    }
}

/// `s` without its longest suffix of characters satisfying `p`.
pub open spec fn drop_while_back(s: Seq<char>, p: spec_fn(char) -> bool) -> Seq<char>
    decreases s.len(),
{
    if s.len() == 0 {
        s
    } else if p(s.last()) {
        drop_while_back(s.drop_last(), p)
    } else {
        s
    }
}

/// `s` without leading and trailing characters satisfying `p`.
pub open spec fn trim_by(s: Seq<char>, p: spec_fn(char) -> bool) -> Seq<char> {
    drop_while_back(drop_while_front(s, p), p)
}

/// `s` without leading and trailing whitespace.
pub open spec fn trim_spec(s: Seq<char>) -> Seq<char> {
    trim_by(s, |c: char| is_space(c))
}

/// `s` without leading and trailing quote characters.
pub open spec fn strip_quotes_spec(s: Seq<char>) -> Seq<char> {
    trim_by(s, |c: char| c == '"')
}

proof fn lemma_drop_while_front_skip(s: Seq<char>, p: spec_fn(char) -> bool, k: int)
    requires
        0 <= k <= s.len(),
        forall|i: int| 0 <= i < k ==> p(s[i]),
        k < s.len() ==> !p(s[k]),
    ensures
        drop_while_front(s, p) == s.skip(k),
    decreases k,
{
    if k == 0 {
        assert(s.skip(0) =~= s);
        if s.len() > 0 && p(s[0]) {
            assert(false);
        }
    } else {
        assert(p(s[0]));
        lemma_drop_while_front_skip(s.drop_first(), p, k - 1);
        assert(s.drop_first().skip(k - 1) =~= s.skip(k));
    }
}

proof fn lemma_drop_while_back_take(s: Seq<char>, p: spec_fn(char) -> bool, k: int)
    requires
        0 <= k <= s.len(),
        forall|i: int| k <= i < s.len() ==> p(s[i]),
        k > 0 ==> !p(s[k - 1]),
    ensures
        drop_while_back(s, p) == s.take(k),
    decreases s.len() - k,
{
    if k == s.len() {
        assert(s.take(k) =~= s);
        if s.len() > 0 && p(s.last()) {
            assert(false);
        }
    } else {
        assert(p(s.last()));
        lemma_drop_while_back_take(s.drop_last(), p, k);
        assert(s.drop_last().take(k) =~= s.take(k));
    }
}

fn is_trimmed_char(c: char, quotes: bool) -> (r: bool)
    ensures
        quotes ==> r == (c == '"'),
        !quotes ==> r == is_space(c),
{
    if quotes {
        c == '"'
    } else {
        is_space_char(c)
    }
}

/// Remove the leading and trailing characters that go: quote characters
/// when `quotes` holds, whitespace otherwise.  Shared body of the trimming
/// functions below.
#[verifier::loop_isolation(false)]
fn trim_chars_by(v: &Vec<char>, quotes: bool) -> (r: Vec<char>)
    ensures
        quotes ==> r@ == strip_quotes_spec(v@),
        !quotes ==> r@ == trim_spec(v@),
{
    let ghost p: spec_fn(char) -> bool = if quotes {
        |c: char| c == '"'
    } else {
        |c: char| is_space(c)
    };
    let mut start: usize = 0;
    while start < v.len() && is_trimmed_char(v[start], quotes)
        invariant
            start <= v@.len(),
            forall|i: int| 0 <= i < start ==> p(v@[i]),
        decreases v@.len() - start,
    {
        start += 1;
    }
    proof {
        lemma_drop_while_front_skip(v@, p, start as int);
    }
    let ghost mid = v@.skip(start as int);
    let mut end: usize = v.len();
    while end > start && is_trimmed_char(v[end - 1], quotes)
        invariant
            start <= end <= v@.len(),
            forall|i: int| end <= i < v@.len() ==> p(v@[i]),
        decreases end,
    {
        end -= 1;
    }
    proof {
        lemma_drop_while_back_take(mid, p, end - start);
        assert(mid.take(end - start) =~= v@.subrange(start as int, end as int));
    }
    let mut r: Vec<char> = Vec::new();
    let mut i: usize = start;
    while i < end
        invariant
            start <= i <= end <= v@.len(),
            r@ == v@.subrange(start as int, i as int),
        decreases end - i,
    {
        let c = v[i];
        r.push(c);
        proof {
            assert(v@.subrange(start as int, i + 1) =~= v@.subrange(start as int, i as int).push(
                c,
            ));
        }
        i += 1;
    }
    r
}

/// `v` without leading and trailing whitespace, as `str::trim` leaves it.
pub fn trim_chars(v: &Vec<char>) -> (r: Vec<char>)
    ensures
        r@ == trim_spec(v@),
{
    trim_chars_by(v, false)
}

/// `v` without leading and trailing quote characters.
pub fn strip_quotes(v: &Vec<char>) -> (r: Vec<char>)
    ensures
        r@ == strip_quotes_spec(v@),
{
    trim_chars_by(v, true)
}

/// The characters of `s`, in order.
pub fn chars_of(s: &str) -> (r: Vec<char>)
    ensures
        r@ == s@,
{
    let n = s.unicode_len();
    let mut r: Vec<char> = Vec::new();
    let mut i: usize = 0;
    while i < n
        invariant
            n == s@.len(),
            i <= n,
            r@ == s@.take(i as int),
        decreases n - i,
    {
        let c = s.get_char(i);
        r.push(c);
        proof {
            assert(s@.take(i + 1) =~= s@.take(i as int).push(c));
        }
        i += 1;
    }
    proof {
        assert(s@.take(n as int) =~= s@);
    }
    r
}

/// Relies on `String::push`: it appends the given character to the end of
/// the string.
#[verifier::external_body]
pub(crate) fn push_char(s: &mut String, c: char)
    ensures
        final(s)@ == old(s)@.push(c),
{
    s.push(c);
}

/// A `String` holding exactly the characters of `v`.
pub fn string_from_chars(v: &Vec<char>) -> (r: String)
    ensures
        r@ == v@,
{
    let mut r = String::new();
    let mut i: usize = 0;
    while i < v.len()
        invariant
            i <= v@.len(),
            r@ == v@.take(i as int),
        decreases v@.len() - i,
    {
        let c = v[i];
        push_char(&mut r, c);
        proof {
            assert(v@.take(i + 1) =~= v@.take(i as int).push(c));
        }
        i += 1;
    }
    proof {
        assert(v@.take(v@.len() as int) =~= v@);
    }
    r
}

/// Whether the characters of `a` and `b` agree.
pub fn chars_eq_str(a: &Vec<char>, b: &str) -> (r: bool)
    ensures
        r == (a@ == b@),
{
    let n = b.unicode_len();
    if a.len() != n {
        proof {
            assert(a@.len() != b@.len());
        }
        return false;
    }
    let mut i: usize = 0;
    while i < n
        invariant
            n == b@.len() == a@.len(),
            i <= n,
            forall|j: int| 0 <= j < i ==> a@[j] == b@[j],
        decreases n - i,
    {
        if a[i] != b.get_char(i) {
            return false;
        }
        i += 1;
    }
    proof {
        assert(a@ =~= b@);
    }
    true
}

/// Whether the characters of `a` and `b` agree.
pub fn str_eq(a: &str, b: &str) -> (r: bool)
    ensures
        r == (a@ == b@),
{
    let ca = chars_of(a);
    chars_eq_str(&ca, b)
}

/// A run of `n` spaces.
pub open spec fn spaces(n: nat) -> Seq<char> {
    Seq::new(n, |i: int| ' ')
}

/// `s` clipped to at most `w` characters and padded with spaces up to
/// exactly `w` characters: what one interior panel row shows of a content
/// line.
pub open spec fn clip_pad(s: Seq<char>, w: nat) -> Seq<char> {
    if s.len() >= w {
        s.take(w as int)
    } else {
        s + spaces((w - s.len()) as nat)
    }
}

/// Clip `v` to at most `w` characters, then pad with spaces to exactly `w`.
#[verifier::loop_isolation(false)]
pub fn clip_pad_chars(v: Vec<char>, w: usize) -> (r: Vec<char>)
    ensures
        r@ == clip_pad(v@, w as nat),
{
    let ghost full = clip_pad(v@, w as nat);
    let mut r = v;
    r.truncate(w);
    proof {
        if v@.len() >= w {
            assert(r@ == full);
        } else {
            assert(full.take(v@.len() as int) =~= v@);
        }
    }
    while r.len() < w
        invariant
            r@.len() <= w,
            v@.len() < w ==> v@.len() <= r@.len(),
            v@.len() >= w ==> r@.len() == w,
            r@ == full.take(r@.len() as int),
        decreases w - r@.len(),
    {
        r.push(' ');
        proof {
            assert(full[r@.len() - 1] == ' ');
            assert(full.take(r@.len() as int) =~= full.take(r@.len() - 1).push(' '));
        }
    }
    proof {
        assert(full.take(r@.len() as int) =~= full);
    }
    r
}

/// A vector of `n` copies of `c`.
pub fn repeat_char(c: char, n: usize) -> (r: Vec<char>)
    ensures
        r@ == Seq::new(n as nat, |i: int| c),
{
    let mut r: Vec<char> = Vec::new();
    while r.len() < n
        invariant
            r@.len() <= n,
            forall|j: int| 0 <= j < r@.len() ==> r@[j] == c,
        decreases n - r@.len(),
    {
        r.push(c);
    }
    proof {
        assert(r@ =~= Seq::new(n as nat, |i: int| c));
    }
    r
}

/// Pushing one element through a filter keeps the filtered prefix and
/// appends the element exactly when the predicate holds of it.
pub proof fn lemma_filter_push<A>(s: Seq<A>, x: A, pred: spec_fn(A) -> bool)
    ensures
        s.push(x).filter(pred) == if pred(x) {
            s.filter(pred).push(x)
        } else {
            s.filter(pred)
        },
{
    reveal(Seq::filter);
    assert(s.push(x).drop_last() =~= s);
}

/// A filter keeps nothing of a sequence none of whose elements satisfy
/// the predicate.
pub proof fn lemma_filter_none<A>(s: Seq<A>, pred: spec_fn(A) -> bool)
    requires
        forall|i: int| 0 <= i < s.len() ==> !pred(#[trigger] s[i]),
    ensures
        s.filter(pred) == Seq::<A>::empty(),
    decreases s.len(),
{
    reveal(Seq::filter);
    if s.len() > 0 {
        assert(!pred(s[s.len() - 1]));
        lemma_filter_none(s.drop_last(), pred);
    }
}

/// A copy of `s` with the same characters.
pub fn clone_string(s: &String) -> (r: String)
    ensures
        r@ == s@,
{
    s.clone()
}

/// The views of a sequence of strings.
pub open spec fn str_views(ss: Seq<String>) -> Seq<Seq<char>> {
    ss.map_values(|s: String| s@)
}

/// `s` broken by line feeds so that no line runs past `w` characters,
/// starting from position `i` with `cnt` characters already on the current
/// line: a break is inserted as soon as a line reaches `w` characters, and
/// an existing line feed starts a fresh count.
pub open spec fn wrap_from(s: Seq<char>, i: int, cnt: int, w: int) -> Seq<char>
    decreases s.len() - i,
{
    if i < 0 || i >= s.len() {
        Seq::empty()
    } else {
        let c = s[i];
        if c == '\n' {
            seq![c] + wrap_from(s, i + 1, 0, w)
        } else if cnt + 1 >= w {
            seq![c, '\n'] + wrap_from(s, i + 1, 0, w)
        } else {
            seq![c] + wrap_from(s, i + 1, cnt + 1, w)
        }
    }
}

/// The naive character-count wrap of `s` at width `w`.
pub open spec fn wrap_spec(s: Seq<char>, w: int) -> Seq<char> {
    wrap_from(s, 0, 0, w)
}

/// Wrap `s` at width `w` as [`wrap_spec`] describes.
#[verifier::loop_isolation(false)]
pub fn wrap_chars(s: &Vec<char>, w: usize) -> (r: Vec<char>)
    ensures
        r@ == wrap_spec(s@, w as int),
{
    let mut out: Vec<char> = Vec::new();
    let mut cnt: usize = 0;
    let mut i: usize = 0;
    while i < s.len()
        invariant
            i <= s@.len(),
            cnt == 0 || cnt < w,
            wrap_spec(s@, w as int) == out@ + wrap_from(s@, i as int, cnt as int, w as int),
        decreases s@.len() - i,
    {
        let c = s[i];
        let ghost pre = out@;
        let ghost tail_nl = wrap_from(s@, i + 1, 0, w as int);
        let ghost tail_go = wrap_from(s@, i + 1, cnt + 1, w as int);
        if c == '\n' {
            out.push(c);
            cnt = 0;
            proof {
                assert(out@ =~= pre + seq![c]);
                assert(pre + (seq![c] + tail_nl) =~= (pre + seq![c]) + tail_nl);
            }
        } else if cnt + 1 >= w {
            out.push(c);
            out.push('\n');
            cnt = 0;
            proof {
                assert(out@ =~= pre + seq![c, '\n']);
                assert(pre + (seq![c, '\n'] + tail_nl) =~= (pre + seq![c, '\n']) + tail_nl);
            }
        } else {
            out.push(c);
            cnt += 1;
            proof {
                assert(out@ =~= pre + seq![c]);
                assert(pre + (seq![c] + tail_go) =~= (pre + seq![c]) + tail_go);
            }
        }
        i += 1;
    }
    proof {
        assert(out@ + wrap_from(s@, s@.len() as int, cnt as int, w as int) =~= out@);
    }
    out
}

/// The segments of `s` between line feeds, in order; text with no line
/// feed is a single segment, and a trailing line feed leaves a final empty
/// segment.
pub open spec fn split_nl(s: Seq<char>) -> Seq<Seq<char>>
    decreases s.len(),
{
    if s.len() == 0 {
        seq![Seq::<char>::empty()]
    } else if s.last() == '\n' {
        split_nl(s.drop_last()).push(Seq::empty())
    } else {
        let r = split_nl(s.drop_last());
        r.update(r.len() - 1, r.last().push(s.last()))
    }
}

/// There is always at least the segment being accumulated.
pub proof fn lemma_split_nl_len(s: Seq<char>)
    ensures
        split_nl(s).len() >= 1,
    decreases s.len(),
{
    if s.len() > 0 {
        lemma_split_nl_len(s.drop_last());
    }
}

/// The nonempty segments of `s` between line feeds: what the detail panel
/// shows after wrapping.
pub open spec fn split_lines_spec(s: Seq<char>) -> Seq<Seq<char>> {
    split_nl(s).filter(|l: Seq<char>| l.len() > 0)
}

/// Split `s` on line feeds and keep the nonempty segments, as
/// [`split_lines_spec`] describes.
#[verifier::loop_isolation(false)]
pub fn split_lines(s: &Vec<char>) -> (r: Vec<String>)
    ensures
        r.deep_view() == split_lines_spec(s@),
{
    let ghost keep = |l: Seq<char>| l.len() > 0;
    let mut lines: Vec<String> = Vec::new();
    let mut cur: Vec<char> = Vec::new();
    let ghost mut done: Seq<Seq<char>> = Seq::empty();
    let mut i: usize = 0;
    proof {
        assert(s@.take(0) =~= Seq::<char>::empty());
        assert(done.push(cur@) =~= split_nl(s@.take(0)));
        reveal(Seq::filter);
        assert(lines.deep_view() =~= done.filter(keep));
    }
    while i < s.len()
        invariant
            i <= s@.len(),
            split_nl(s@.take(i as int)) == done.push(cur@),
            lines.deep_view() == done.filter(keep),
        decreases s@.len() - i,
    {
        let c = s[i];
        proof {
            assert(s@.take(i + 1).drop_last() =~= s@.take(i as int));
            assert(s@.take(i + 1).last() == c);
            lemma_split_nl_len(s@.take(i as int));
        }
        if c == '\n' {
            let ghost finished = cur@;
            if cur.len() > 0 {
                let line = string_from_chars(&cur);
                lines.push(line);
            }
            proof {
                lemma_filter_push(done, finished, keep);
                if finished.len() > 0 {
                    assert(lines.deep_view() =~= done.push(finished).filter(keep));
                } else {
                    assert(lines.deep_view() =~= done.push(finished).filter(keep));
                }
                done = done.push(finished);
            }
            cur = Vec::new();
            proof {
                assert(split_nl(s@.take(i + 1)) =~= done.push(cur@));
            }
        } else {
            let ghost r0 = done.push(cur@);
            cur.push(c);
            proof {
                assert(split_nl(s@.take(i + 1)) == r0.update(r0.len() - 1, r0.last().push(c)));
                assert(r0.update(r0.len() - 1, r0.last().push(c)) =~= done.push(cur@));
            }
        }
        i += 1;
    }
    proof {
        assert(s@.take(s@.len() as int) =~= s@);
    }
    let ghost finished = cur@;
    if cur.len() > 0 {
        let line = string_from_chars(&cur);
        lines.push(line);
    }
    proof {
        lemma_filter_push(done, finished, keep);
        if finished.len() > 0 {
            assert(lines.deep_view() =~= done.push(finished).filter(keep));
        } else {
            assert(lines.deep_view() =~= done.push(finished).filter(keep));
        }
    }
    lines
}

/// `c` with an ASCII capital letter mapped to its small form; any other
/// character is left alone.
pub open spec fn lower_char(c: char) -> char {
    if 65 <= c as u32 <= 90 {
        (((c as u8) + 32) as u8) as char
    } else {
        c
    }
}

/// `s` with every ASCII capital letter lowered.
pub open spec fn lower_seq(s: Seq<char>) -> Seq<char> {
    s.map_values(|c: char| lower_char(c))
}

/// Computes [`lower_char`].
pub fn lower_char_exec(c: char) -> (r: char)
    ensures
        r == lower_char(c),
{
    let code = c as u32;
    if 65 <= code && code <= 90 {
        ((c as u8) + 32) as char
    } else {
        c
    }
}

/// The decimal digit `d` as a character.
pub open spec fn digit_char(d: int) -> char {
    if d == 0 {
        '0'
    } else if d == 1 {
        '1'
    } else if d == 2 {
        '2'
    } else if d == 3 {
        '3'
    } else if d == 4 {
        '4'
    } else if d == 5 {
        '5'
    } else if d == 6 {
        '6'
    } else if d == 7 {
        '7'
    } else if d == 8 {
        '8'
    } else {
        '9'
    }
}

/// The decimal numeral of `n`, most significant digit first, without
/// leading zeros (except for `0` itself).
pub open spec fn dec_rep(n: int) -> Seq<char>
    decreases n,
{
    if n < 10 {
        seq![digit_char(n)]
    } else {
        dec_rep(n / 10).push(digit_char(n % 10))
    }
}

fn digit_to_char(d: u32) -> (c: char)
    requires
        d < 10,
    ensures
        c == digit_char(d as int),
{
    if d == 0 {
        '0'
    } else if d == 1 {
        '1'
    } else if d == 2 {
        '2'
    } else if d == 3 {
        '3'
    } else if d == 4 {
        '4'
    } else if d == 5 {
        '5'
    } else if d == 6 {
        '6'
    } else if d == 7 {
        '7'
    } else if d == 8 {
        '8'
    } else {
        '9'
    }
}

/// The decimal numeral of `n` as characters.
pub fn u32_to_chars(n: u32) -> (r: Vec<char>)
    ensures
        r@ == dec_rep(n as int),
    decreases n,
{
    if n < 10 {
        let mut r: Vec<char> = Vec::new();
        r.push(digit_to_char(n));
        proof {
            assert(r@ =~= seq![digit_char(n as int)]);
        }
        r
    } else {
        let mut r = u32_to_chars(n / 10);
        r.push(digit_to_char(n % 10));
        r
    }
}

/// The decimal numeral of `n` as a `String`.
pub fn u32_to_string(n: u32) -> (r: String)
    ensures
        r@ == dec_rep(n as int),
{
    let v = u32_to_chars(n);
    string_from_chars(&v)
}

/// Whether `c` is a decimal digit.
pub open spec fn is_digit(c: char) -> bool {
    48 <= c as u32 <= 57
}

/// The value of the digit `c`.
pub open spec fn digit_val(c: char) -> int {
    c as u32 - 48
}

/// The value of the digit string `s`, most significant digit first.
pub open spec fn numeral_val(s: Seq<char>) -> int
    decreases s.len(),
{
    if s.len() == 0 {
        0
    } else {
        numeral_val(s.drop_last()) * 10 + digit_val(s.last())
    }
}

/// The digits of a numeral as `u32::from_str` reads it: everything after an
/// optional leading `+` sign.
pub open spec fn numeral_digits(s: Seq<char>) -> Seq<char> {
    if s.len() > 0 && s[0] == '+' {
        s.drop_first()
    } else {
        s
    }
}

/// Whether `s` is a numeral that `u32::from_str` accepts: an optional `+`
/// sign, then one or more decimal digits, with a value that fits in `u32`.
pub open spec fn is_u32_numeral(s: Seq<char>) -> bool {
    let d = numeral_digits(s);
    &&& d.len() > 0
    &&& forall|i: int| 0 <= i < d.len() ==> is_digit(#[trigger] d[i])
    &&& numeral_val(d) <= u32::MAX
}

proof fn lemma_numeral_val_nonneg(s: Seq<char>)
    requires
        forall|i: int| 0 <= i < s.len() ==> is_digit(#[trigger] s[i]),
    ensures
        numeral_val(s) >= 0,
    decreases s.len(),
{
    if s.len() > 0 {
        lemma_numeral_val_nonneg(s.drop_last());
    }
}

proof fn lemma_numeral_prefix_le(s: Seq<char>, k: int)
    requires
        forall|i: int| 0 <= i < s.len() ==> is_digit(#[trigger] s[i]),
        0 <= k <= s.len(),
    ensures
        numeral_val(s.take(k)) <= numeral_val(s),
    decreases s.len() - k,
{
    if k == s.len() {
        assert(s.take(k) =~= s);
    } else {
        lemma_numeral_prefix_le(s, k + 1);
        let t = s.take(k + 1);
        assert(t.drop_last() =~= s.take(k));
        assert(forall|i: int| 0 <= i < t.len() ==> is_digit(#[trigger] t[i]));
        lemma_numeral_val_nonneg(s.take(k));
        assert(numeral_val(t) == numeral_val(s.take(k)) * 10 + digit_val(s[k]));
        assert(numeral_val(s.take(k)) <= numeral_val(s.take(k)) * 10 + digit_val(s[k]));
    }
}

/// Parse a decimal numeral the way `u32::from_str` does: `Some` exactly on
/// an optional `+` sign followed by digits whose value fits in `u32`.
#[verifier::loop_isolation(false)]
pub fn parse_u32_chars(v: &Vec<char>) -> (r: Option<u32>)
    ensures
        r is Some <==> is_u32_numeral(v@),
        r matches Some(n) ==> n == numeral_val(numeral_digits(v@)),
{
    let start: usize = if v.len() > 0 && v[0] == '+' {
        1
    } else {
        0
    };
    let ghost d = numeral_digits(v@);
    proof {
        assert(d =~= v@.skip(start as int));
    }
    if v.len() == start {
        return None;
    }
    let mut acc: u64 = 0;
    let mut i: usize = start;
    while i < v.len()
        invariant
            start <= i <= v@.len(),
            forall|j: int| 0 <= j < i - start ==> is_digit(#[trigger] d[j]),
            acc == numeral_val(d.take(i - start)),
            acc <= u32::MAX,
        decreases v@.len() - i,
    {
        let c = v[i];
        let code = c as u32;
        if code < 48 || code > 57 {
            proof {
                assert(!is_digit(d[i - start]));
            }
            return None;
        }
        let dv: u64 = (code - 48) as u64;
        let next: u64 = acc * 10 + dv;
        proof {
            assert(is_digit(d[i - start]));
            assert(dv == digit_val(d[i - start]));
            assert(d.take(i + 1 - start).drop_last() =~= d.take(i - start));
            assert(numeral_val(d.take(i + 1 - start)) == acc * 10 + digit_val(d[i - start]));
        }
        if next > u32::MAX as u64 {
            proof {
                if forall|j: int| 0 <= j < d.len() ==> is_digit(#[trigger] d[j]) {
                    lemma_numeral_prefix_le(d, i + 1 - start);
                    assert(numeral_val(d) >= numeral_val(d.take(i + 1 - start)));
                }
            }
            return None;
        }
        acc = next;
        i += 1;
    }
    proof {
        assert(d.take(v@.len() - start) =~= d);
    }
    Some(acc as u32)
}

} // verus!
