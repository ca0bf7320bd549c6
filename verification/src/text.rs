//! Text building blocks shared by the source generators: joining, the
//! parameter letters and decimal numerals.
use vstd::prelude::*;
use vstd::string::{StrSliceExecFns, StringExecFns};

verus! {

/// The items, with `sep` between each two neighbours.
pub open spec fn join(items: Seq<Seq<char>>, sep: Seq<char>) -> Seq<char>
    decreases items.len(),
{
    if items.len() == 0 {
        Seq::empty()
    } else if items.len() == 1 {
        items[0]
    } else {
        join(items.drop_last(), sep) + sep + items.last()
    }
}

/// The sixteen letters that name type parameters, `A` to `P`.
pub open spec fn upper_letters() -> Seq<char> {
    seq!['A', 'B', 'C', 'D', 'E', 'F', 'G', 'H', 'I', 'J', 'K', 'L', 'M', 'N', 'O', 'P']
}

/// The same letters in lower case, which name the matching arguments.
pub open spec fn lower_letters() -> Seq<char> {
    seq!['a', 'b', 'c', 'd', 'e', 'f', 'g', 'h', 'i', 'j', 'k', 'l', 'm', 'n', 'o', 'p']
}

/// The decimal digit `d`.
pub open spec fn digit_char(d: nat) -> char {
    seq!['0', '1', '2', '3', '4', '5', '6', '7', '8', '9'][d as int]
}

/// The decimal numeral of `n`, without leading zeros.
pub open spec fn decimal(n: nat) -> Seq<char>
    decreases n,
{
    if n < 10 {
        seq![digit_char(n)]
    } else {
        decimal(n / 10) + seq![digit_char(n % 10)]
    }
}

/// Taking one more item adds the separator and that item.
pub proof fn lemma_join_take_next(items: Seq<Seq<char>>, sep: Seq<char>, k: int)
    requires
        0 <= k < items.len(),
    ensures
        join(items.take(k + 1), sep) == if k == 0 {
            items[0]
        } else {
            join(items.take(k), sep) + sep + items[k]
        },
{
    assert(items.take(k + 1).drop_last() =~= items.take(k));
    if k == 0 {
        assert(items.take(1).len() == 1);
    }
}

/// Every item stands whole in the joined text, so the text is at least as
/// long as each item; with two items or more it holds a separator too.
pub proof fn lemma_join_len(items: Seq<Seq<char>>, sep: Seq<char>)
    ensures
        forall|k: int| 0 <= k < items.len() ==> join(items, sep).len() >= (#[trigger] items[k]).len(),
        items.len() >= 2 ==> join(items, sep).len() >= sep.len(),
    decreases items.len(),
{
    if items.len() >= 2 {
        lemma_join_len(items.drop_last(), sep);
        assert forall|k: int| 0 <= k < items.len() implies join(items, sep).len() >= (#[trigger] items[k]).len() by {
            if k < items.len() - 1 {
                assert(items.drop_last()[k] == items[k]);
            }
        }
    }
}

/// Appends the decimal numeral of `n`.
pub fn append_decimal(s: &mut String, n: usize)
    ensures
        final(s)@ == old(s)@ + decimal(n as nat),
    decreases n,
{
    let digits = "0123456789";
    proof {
        reveal_strlit("0123456789");
    }
    if n >= 10 {
        append_decimal(s, n / 10);
    }
    let d: usize = n % 10;
    s.append(digits.substring_char(d, d + 1));
    assert(digits@.subrange(d as int, d as int + 1) =~= seq![digit_char(d as nat)]);
}

/// Appends the type parameter letter with index `i`.
pub fn append_upper_letter(s: &mut String, i: usize)
    requires
        i < 16,
    ensures
        final(s)@ == old(s)@ + seq![upper_letters()[i as int]],
{
    let letters = "ABCDEFGHIJKLMNOP";
    proof {
        reveal_strlit("ABCDEFGHIJKLMNOP");
    }
    s.append(letters.substring_char(i, i + 1));
    assert(letters@.subrange(i as int, i as int + 1) =~= seq![upper_letters()[i as int]]);
}

/// Appends the argument letter with index `i`.
pub fn append_lower_letter(s: &mut String, i: usize)
    requires
        i < 16,
    ensures
        final(s)@ == old(s)@ + seq![lower_letters()[i as int]],
{
    let letters = "abcdefghijklmnop";
    proof {
        reveal_strlit("abcdefghijklmnop");
    }
    s.append(letters.substring_char(i, i + 1));
    assert(letters@.subrange(i as int, i as int + 1) =~= seq![lower_letters()[i as int]]);
}

} // verus!

verus! {

// ---------------------------------------------------------------------------
// Splitting and trimming.
// ---------------------------------------------------------------------------

/// Whether `c` has Unicode's White_Space property, which is what
/// `char::is_whitespace` answers: tab to carriage return, space, next line,
/// no-break space, ogham space mark, en quad to hair space, line and
/// paragraph separator, narrow no-break space, medium mathematical space and
/// ideographic space.
pub open spec fn white_space(c: char) -> bool {
    let v = c as int;
    ||| 0x9 <= v <= 0xd
    ||| v == 0x20 || v == 0x85 || v == 0xa0 || v == 0x1680
    ||| 0x2000 <= v <= 0x200a
    ||| v == 0x2028 || v == 0x2029 || v == 0x202f || v == 0x205f || v == 0x3000
}

/// Whether `c` is white space.
pub fn is_white_space(c: char) -> (r: bool)
    ensures
        r == white_space(c),
{
    let v = c as u32;
    (0x9 <= v && v <= 0xd) || v == 0x20 || v == 0x85 || v == 0xa0 || v == 0x1680 || (0x2000 <= v
        && v <= 0x200a) || v == 0x2028 || v == 0x2029 || v == 0x202f || v == 0x205f || v == 0x3000
}

/// The pieces of `s` between the occurrences of `sep`, in order; there is
/// always one piece more than there are separators.
pub open spec fn split_on(s: Seq<char>, sep: char) -> Seq<Seq<char>>
    decreases s.len(),
{
    if s.len() == 0 {
        seq![Seq::empty()]
    } else {
        let pieces = split_on(s.drop_last(), sep);
        if s.last() == sep {
            pieces.push(Seq::empty())
        } else {
            pieces.update(pieces.len() - 1, pieces.last().push(s.last()))
        }
    }
}

/// There is always at least one piece.
pub proof fn lemma_split_nonempty(s: Seq<char>, sep: char)
    ensures
        split_on(s, sep).len() >= 1,
    decreases s.len(),
{
    if s.len() > 0 {
        lemma_split_nonempty(s.drop_last(), sep);
    }
}

/// Appending a character to the last item appends it to the joined text.
proof fn lemma_join_extend_last(items: Seq<Seq<char>>, sep: Seq<char>, c: char)
    requires
        items.len() > 0,
    ensures
        join(items.update(items.len() - 1, items.last().push(c)), sep) == join(items, sep).push(c),
{
    let u = items.update(items.len() - 1, items.last().push(c));
    if items.len() >= 2 {
        assert(u.drop_last() =~= items.drop_last());
        assert(join(u, sep) =~= join(items, sep).push(c));
    }
}

/// Splitting is undone by joining with the separator, and no piece holds
/// the separator: the pieces are exactly the stretches between separators.
pub proof fn lemma_split_then_join(s: Seq<char>, sep: char)
    ensures
        join(split_on(s, sep), seq![sep]) == s,
        forall|k: int, i: int|
            0 <= k < split_on(s, sep).len() && 0 <= i < split_on(s, sep)[k].len() ==> #[trigger] split_on(s, sep)[k][i]
                != sep,
    decreases s.len(),
{
    if s.len() == 0 {
        assert(join(seq![Seq::<char>::empty()], seq![sep]) =~= s);
    } else {
        let q = s.drop_last();
        lemma_split_then_join(q, sep);
        lemma_split_nonempty(q, sep);
        let p = split_on(q, sep);
        if s.last() == sep {
            let r = p.push(Seq::empty());
            assert(r.drop_last() =~= p);
            assert(join(r, seq![sep]) =~= s);
            assert forall|k: int, i: int| 0 <= k < r.len() && 0 <= i < r[k].len() implies #[trigger] r[k][i] != sep by {
                assert(k < p.len());
                assert(r[k] == p[k]);
            }
        } else {
            lemma_join_extend_last(p, seq![sep], s.last());
            assert(join(p, seq![sep]).push(s.last()) =~= s);
            let r = p.update(p.len() - 1, p.last().push(s.last()));
            assert forall|k: int, i: int| 0 <= k < r.len() && 0 <= i < r[k].len() implies #[trigger] r[k][i] != sep by {
                if k < p.len() - 1 {
                    assert(r[k] == p[k]);
                } else if i < p.last().len() {
                    assert(r[k][i] == p[k][i]);
                }
            }
        }
    }
}

/// `s` without its leading characters that satisfy `p`.
pub open spec fn trim_start_by(s: Seq<char>, p: spec_fn(char) -> bool) -> Seq<char>
    decreases s.len(),
{
    if s.len() > 0 && p(s[0]) {
        trim_start_by(s.drop_first(), p)
    } else {
        s
    }
}

/// `s` without its trailing characters that satisfy `p`.
pub open spec fn trim_end_by(s: Seq<char>, p: spec_fn(char) -> bool) -> Seq<char>
    decreases s.len(),
{
    if s.len() > 0 && p(s.last()) {
        trim_end_by(s.drop_last(), p)
    } else {
        s
    }
}

/// `trim_start_by` drops exactly the leading run of characters that
/// satisfy `p`: the result is `s` from the returned index on, every
/// character before it satisfies `p`, and the one at it does not.
pub proof fn lemma_trim_start_by(s: Seq<char>, p: spec_fn(char) -> bool) -> (i: int)
    ensures
        0 <= i <= s.len(),
        trim_start_by(s, p) == s.subrange(i, s.len() as int),
        forall|j: int| 0 <= j < i ==> p(#[trigger] s[j]),
        i < s.len() ==> !p(s[i]),
    decreases s.len(),
{
    if s.len() > 0 && p(s[0]) {
        let k = lemma_trim_start_by(s.drop_first(), p);
        assert(s.drop_first().subrange(k, s.len() - 1) =~= s.subrange(k + 1, s.len() as int));
        assert forall|j: int| 0 <= j < k + 1 implies p(#[trigger] s[j]) by {
            if j > 0 {
                assert(s[j] == s.drop_first()[j - 1]);
            }
        }
        k + 1
    } else {
        assert(s.subrange(0, s.len() as int) =~= s);
        0
    }
}

/// `trim_end_by` drops exactly the trailing run of characters that satisfy
/// `p`: the result is `s` up to the returned index, every character from it
/// on satisfies `p`, and the one before it does not.
pub proof fn lemma_trim_end_by(s: Seq<char>, p: spec_fn(char) -> bool) -> (i: int)
    ensures
        0 <= i <= s.len(),
        trim_end_by(s, p) == s.subrange(0, i),
        forall|j: int| i <= j < s.len() ==> p(#[trigger] s[j]),
        i > 0 ==> !p(s[i - 1]),
    decreases s.len(),
{
    if s.len() > 0 && p(s.last()) {
        let k = lemma_trim_end_by(s.drop_last(), p);
        assert(s.drop_last().subrange(0, k) =~= s.subrange(0, k));
        assert forall|j: int| k <= j < s.len() implies p(#[trigger] s[j]) by {
            if j < s.len() - 1 {
                assert(s[j] == s.drop_last()[j]);
            }
        }
        k
    } else {
        assert(s.subrange(0, s.len() as int) =~= s);
        s.len() as int
    }
}

/// Trimming keeps a stretch of `s` and drops only white space around it:
/// the result neither starts nor ends with white space.
pub proof fn lemma_trim_white(s: Seq<char>)
    ensures
        exists|a: int, b: int|
            0 <= a <= b <= s.len() && trim_white(s) == s.subrange(a, b) && (forall|j: int|
                0 <= j < a ==> white_space(#[trigger] s[j])) && (forall|j: int|
                b <= j < s.len() ==> white_space(#[trigger] s[j])),
        trim_white(s).len() > 0 ==> !white_space(trim_white(s)[0]) && !white_space(trim_white(s).last()),
{
    let w = |c: char| white_space(c);
    let a = lemma_trim_start_by(s, w);
    let t = trim_start_by(s, w);
    let e = lemma_trim_end_by(t, w);
    assert(trim_white(s) == t.subrange(0, e));
    assert(t.subrange(0, e) =~= s.subrange(a, a + e));
    assert forall|j: int| a + e <= j < s.len() implies white_space(#[trigger] s[j]) by {
        assert(s[j] == t[j - a]);
        assert(w(t[j - a]));
    }
    assert forall|j: int| 0 <= j < a implies white_space(#[trigger] s[j]) by {
        assert(w(s[j]));
    }
    if trim_white(s).len() > 0 {
        assert(trim_white(s)[0] == t[0]);
        assert(!w(t[0]));
        assert(trim_white(s).last() == t[e - 1]);
    }
}

/// `s` without white space at either end, as `str::trim` gives it.
pub open spec fn trim_white(s: Seq<char>) -> Seq<char> {
    trim_end_by(trim_start_by(s, |c: char| white_space(c)), |c: char| white_space(c))
}

/// The pieces of `s` between the occurrences of `sep`, each trimmed.
pub open spec fn split_trimmed(s: Seq<char>, sep: char) -> Seq<Seq<char>> {
    split_on(s, sep).map_values(|p: Seq<char>| trim_white(p))
}

/// A class of characters to trim.
pub enum CharClass {
    /// The white space characters.
    WhiteSpace,
    /// One character.
    Is(char),
}

/// The members of a class.
pub open spec fn in_class(class: CharClass) -> spec_fn(char) -> bool {
    match class {
        CharClass::WhiteSpace => |c: char| white_space(c),
        CharClass::Is(x) => |c: char| c == x,
    }
}

fn is_in_class(class: &CharClass, c: char) -> (r: bool)
    ensures
        r == in_class(*class)(c),
{
    match class {
        CharClass::WhiteSpace => is_white_space(c),
        CharClass::Is(x) => c == *x,
    }
}

/// The characters of `s`, one by one.
pub fn chars_of(s: &str) -> (r: Vec<char>)
    ensures
        r@ == s@,
{
    let n = s.unicode_len();
    let mut v: Vec<char> = Vec::new();
    let mut i: usize = 0;
    while i < n
        invariant
            i <= n,
            n == s@.len(),
            v@ == s@.take(i as int),
        decreases n - i,
    {
        v.push(s.get_char(i));
        i = i + 1;
        assert(v@ =~= s@.take(i as int));
    }
    assert(s@.take(n as int) =~= s@);
    v
}

/// Whether two texts are equal.
pub fn str_eq(a: &str, b: &str) -> (r: bool)
    ensures
        r == (a@ == b@),
{
    let n = a.unicode_len();
    if n != b.unicode_len() {
        return false;
    }
    let mut i: usize = 0;
    while i < n
        invariant
            i <= n,
            n == a@.len(),
            n == b@.len(),
            forall|k: int| 0 <= k < i ==> a@[k] == b@[k],
        decreases n - i,
    {
        if a.get_char(i) != b.get_char(i) {
            return false;
        }
        i = i + 1;
    }
    assert(a@ =~= b@);
    true
}

/// The first position in `lo..hi` from which on `chars` no longer starts
/// with members of the class.
pub fn skip_start(chars: &Vec<char>, lo: usize, hi: usize, class: &CharClass) -> (r: usize)
    requires
        lo <= hi <= chars.len(),
    ensures
        lo <= r <= hi,
        chars@.subrange(r as int, hi as int) == trim_start_by(
            chars@.subrange(lo as int, hi as int),
            in_class(*class),
        ),
{
    let mut i = lo;
    while i < hi && is_in_class(class, chars[i])
        invariant
            lo <= i <= hi <= chars.len(),
            trim_start_by(chars@.subrange(i as int, hi as int), in_class(*class)) == trim_start_by(
                chars@.subrange(lo as int, hi as int),
                in_class(*class),
            ),
        decreases hi - i,
    {
        assert(chars@.subrange(i as int, hi as int).drop_first() =~= chars@.subrange(
            i + 1,
            hi as int,
        ));
        i = i + 1;
    }
    i
}

/// The last position in `lo..hi` up to which `chars` no longer ends with
/// members of the class.
pub fn skip_end(chars: &Vec<char>, lo: usize, hi: usize, class: &CharClass) -> (r: usize)
    requires
        lo <= hi <= chars.len(),
    ensures
        lo <= r <= hi,
        chars@.subrange(lo as int, r as int) == trim_end_by(
            chars@.subrange(lo as int, hi as int),
            in_class(*class),
        ),
{
    let mut j = hi;
    while j > lo && is_in_class(class, chars[j - 1])
        invariant
            lo <= j <= hi <= chars.len(),
            trim_end_by(chars@.subrange(lo as int, j as int), in_class(*class)) == trim_end_by(
                chars@.subrange(lo as int, hi as int),
                in_class(*class),
            ),
        decreases j - lo,
    {
        assert(chars@.subrange(lo as int, j as int).drop_last() =~= chars@.subrange(
            lo as int,
            j - 1,
        ));
        j = j - 1;
    }
    j
}

/// The part of `lo..hi` that is left when white space is trimmed from
/// both ends.
pub fn trim_range(chars: &Vec<char>, lo: usize, hi: usize) -> (r: (usize, usize))
    requires
        lo <= hi <= chars.len(),
    ensures
        lo <= r.0 <= r.1 <= hi,
        chars@.subrange(r.0 as int, r.1 as int) == trim_white(chars@.subrange(lo as int, hi as int)),
{
    let a = skip_start(chars, lo, hi, &CharClass::WhiteSpace);
    let b = skip_end(chars, a, hi, &CharClass::WhiteSpace);
    (a, b)
}

/// The places of the pieces of `lo..hi` between the occurrences of `sep`.
pub fn split_ranges(chars: &Vec<char>, lo: usize, hi: usize, sep: char) -> (r: Vec<(usize, usize)>)
    requires
        lo <= hi <= chars.len(),
    ensures
        r@.len() == split_on(chars@.subrange(lo as int, hi as int), sep).len(),
        forall|k: int|
            0 <= k < r@.len() ==> {
                &&& lo <= (#[trigger] r@[k]).0 <= r@[k].1 <= hi
                &&& chars@.subrange(r@[k].0 as int, r@[k].1 as int) == split_on(
                    chars@.subrange(lo as int, hi as int),
                    sep,
                )[k]
            },
{
    let mut ranges: Vec<(usize, usize)> = Vec::new();
    let mut start = lo;
    let mut i = lo;
    assert(chars@.subrange(lo as int, lo as int) =~= Seq::<char>::empty());
    while i < hi
        invariant
            lo <= start <= i <= hi <= chars.len(),
            ranges@.len() + 1 == split_on(chars@.subrange(lo as int, i as int), sep).len(),
            forall|k: int|
                0 <= k < ranges@.len() ==> {
                    &&& lo <= (#[trigger] ranges@[k]).0 <= ranges@[k].1 <= hi
                    &&& chars@.subrange(ranges@[k].0 as int, ranges@[k].1 as int) == split_on(
                        chars@.subrange(lo as int, i as int),
                        sep,
                    )[k]
                },
            chars@.subrange(start as int, i as int) == split_on(
                chars@.subrange(lo as int, i as int),
                sep,
            ).last(),
        decreases hi - i,
    {
        let ghost before = split_on(chars@.subrange(lo as int, i as int), sep);
        assert(chars@.subrange(lo as int, i + 1).drop_last() =~= chars@.subrange(lo as int, i as int));
        assert(chars@.subrange(lo as int, i + 1).last() == chars@[i as int]);
        if chars[i] == sep {
            ranges.push((start, i));
            start = i + 1;
            assert(chars@.subrange(start as int, i + 1) =~= Seq::<char>::empty());
        } else {
            assert(chars@.subrange(start as int, i + 1) =~= chars@.subrange(start as int, i as int).push(
                chars@[i as int],
            ));
        }
        i = i + 1;
    }
    ranges.push((start, hi));
    ranges
}

} // verus!
